use vstd::prelude::*;

verus! {

/// The lifecycle phase of a buffer, as seen by specifications.
#[derive(Debug, Clone, Copy, PartialEq, Eq, Structural)]
pub enum Phase {
    /// Freshly allocated; no operation has been submitted against it yet.
    Queued,
    /// An asynchronous operation against the buffer has not been confirmed complete.
    InFlight,
    /// The most recent operation against the buffer is confirmed complete.
    Ready,
}

/// Closes `State` to the three markers of this crate.
pub trait Sealed {}

/// A typestate marker: the phase a `GpuBuffer` is statically known to be in.
pub trait State: Sealed {
    spec fn phase() -> Phase;
}

/// Marker: allocated, nothing submitted yet.
pub struct Queued;

/// Marker: an operation was submitted and is not yet confirmed complete.
pub struct InFlight;

/// Marker: the last operation is confirmed complete.
pub struct Ready;

impl Sealed for Queued {}

impl Sealed for InFlight {}

impl Sealed for Ready {}

impl State for Queued {
    open spec fn phase() -> Phase {
        Phase::Queued
    }
}

impl State for InFlight {
    open spec fn phase() -> Phase {
        Phase::InFlight
    }
}

impl State for Ready {
    open spec fn phase() -> Phase {
        Phase::Ready
    }
}

/// The transitions a buffer may take: submitting work moves a queued or a
/// ready buffer in flight, and only a confirmed completion makes it ready.
pub open spec fn legal_step(from: Phase, to: Phase) -> bool {
    match (from, to) {
        (Phase::Queued, Phase::InFlight) => true,
        (Phase::Ready, Phase::InFlight) => true,
        (Phase::InFlight, Phase::Ready) => true,
        _ => false,
    }
}

/// A phase history that starts at allocation and only takes legal steps.
pub open spec fn valid_trail(trail: Seq<Phase>) -> bool {
    &&& trail.len() >= 1
    &&& trail[0] == Phase::Queued
    &&& forall|i: int| 0 <= i < trail.len() - 1 ==> #[trigger] legal_step(trail[i], trail[i + 1])
}

} // verus!
