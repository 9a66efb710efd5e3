use hpc_core::{InFlight, Queued, Ready, State};
use std::marker::PhantomData;

// A buffer type without any runtime behind it, moved through the phases.
struct DummyBuffer(u64);

struct DummyGpuBuffer<S: State> {
    buf: DummyBuffer,
    len: usize,
    _state: PhantomData<S>,
}

struct DummyGuard;

impl Drop for DummyGuard {
    fn drop(&mut self) {
        // A real guard would block on its completion event here.
    }
}

#[test]
fn typestate_transitions_dummy_only() {
    let dummy = DummyBuffer(12345);

    let queued = DummyGpuBuffer::<Queued> { buf: dummy, len: 42, _state: PhantomData };

    let inflight: DummyGpuBuffer<InFlight> =
        DummyGpuBuffer { buf: queued.buf, len: queued.len, _state: PhantomData };

    let guard = DummyGuard;

    let ready: DummyGpuBuffer<Ready> =
        DummyGpuBuffer { buf: inflight.buf, len: inflight.len, _state: PhantomData };

    drop(guard);
    assert_eq!(ready.buf.0, 12345);
    assert_eq!(ready.len, 42);
}
