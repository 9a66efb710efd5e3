//! Typestate-checked accelerator buffers with completion guards, plus the
//! metrics recorder and transfer tracer that observe their lifecycle.
//!
//! A buffer is `GpuBuffer<Queued>` when freshly allocated, `GpuBuffer<InFlight>`
//! while an operation against it may still be running, and `GpuBuffer<Ready>`
//! once that operation is confirmed complete. The runtime calls that allocate
//! and submit are handed in by the caller; everything around them is here.

pub mod backend;
pub mod buffer;
pub mod error;
pub mod memtracer;
pub mod metrics;
pub mod pool;
pub mod state;

pub use buffer::{GpuBuffer, GpuEventGuard};
pub use error::ClError;
pub use memtracer::{
    disable_auto_trace, enable_auto_trace, is_auto_trace_enabled, start, start_if_enabled, CopyToken,
    Dir, TraceRecord, Tracer, TracingScope,
};
pub use metrics::{mean, p95, record, Metrics, OpStats, Sample, Summary};
pub use pool::BufferPool;
pub use state::{InFlight, Phase, Queued, Ready, Sealed, State};
