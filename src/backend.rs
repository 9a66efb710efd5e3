//! The OpenCL runtime and the clock, as this crate relies on them.
use opencl3::error_codes::ClError as OclError;
use vstd::prelude::*;

verus! {

/// `opencl3::memory::Buffer`: a device allocation, held opaquely.
#[verifier::external_type_specification]
#[verifier::external_body]
#[verifier::reject_recursive_types(T)]
pub struct ExBuffer<T>(opencl3::memory::Buffer<T>);

/// `opencl3::event::Event`: the completion event of a submitted command,
/// held opaquely.
#[verifier::external_type_specification]
#[verifier::external_body]
pub struct ExEvent(opencl3::event::Event);

/// `opencl3::context::Context`: the context buffers are created in, held
/// opaquely.
#[verifier::external_type_specification]
#[verifier::external_body]
pub struct ExContext(opencl3::context::Context);

/// `opencl3::error_codes::ClError`: a runtime error code, `pub struct
/// ClError(pub cl_int)`; its one public field is read.
#[verifier::external_type_specification]
pub struct ExOclError(OclError);

/// `std::time::Instant`: a reading of the monotonic clock, held opaquely.
#[verifier::external_type_specification]
#[verifier::external_body]
pub struct ExInstant(std::time::Instant);

/// Relies on `opencl3::event::Event::wait`: blocks until the event's command
/// has finished and reports the runtime's status (nothing is promised of
/// it). It returns an error rather than panicking, also when the OpenCL
/// library cannot be loaded.
#[verifier::external_body]
pub(crate) fn wait_for(evt: &opencl3::event::Event) -> (r: Result<(), OclError>)
    opens_invariants none
    no_unwind
{
    evt.wait()
}

/// Relies on `std::time::Instant::now`: a reading of the monotonic clock.
#[verifier::external_body]
pub(crate) fn now() -> (r: std::time::Instant) {
    std::time::Instant::now()
}

/// Relies on `std::time::Instant::elapsed` and `Duration::as_micros`: whole
/// microseconds since `since`; the clock decides the value.
#[verifier::external_body]
pub(crate) fn elapsed_micros(since: &std::time::Instant) -> (r: u128) {
    since.elapsed().as_micros()
}

/// Relies on `std::time::Instant::duration_since` and `Duration::as_micros`:
/// whole microseconds from `earlier` to `later` (zero if `later` is earlier).
#[verifier::external_body]
pub(crate) fn micros_between(earlier: &std::time::Instant, later: &std::time::Instant) -> (r: u128) {
    later.duration_since(*earlier).as_micros()
}

/// Whether `s` is in ascending order.
pub open spec fn is_ascending(s: Seq<u64>) -> bool {
    forall|i: int, j: int| 0 <= i <= j < s.len() ==> s[i] <= s[j]
}

/// Relies on `slice::sort_unstable`: the same elements, in ascending order.
#[verifier::external_body]
pub(crate) fn sort_ascending(v: &mut Vec<u64>)
    ensures
        is_ascending(final(v)@),
        final(v)@.to_multiset() == old(v)@.to_multiset(),
{
    v.sort_unstable()
}

/// The execution status of a finished command (OpenCL's `CL_COMPLETE`).
pub const CL_COMPLETE: i32 = 0;

/// Relies on `opencl3::event::Event::command_execution_status`: the
/// execution status the runtime reports for the event's command
/// (`CL_COMPLETE` is zero); nothing is promised of it.
#[verifier::external_body]
pub(crate) fn execution_status(evt: &opencl3::event::Event) -> (r: Result<i32, OclError>) {
    evt.command_execution_status().map(|s| s.0)
}

} // verus!
