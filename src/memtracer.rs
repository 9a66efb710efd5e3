//! The transfer timeline: completed transfers and dispatches, each with the
//! idle time since the previous one, and scoped control of auto-tracing.
use crate::backend::{elapsed_micros, micros_between, now};
use vstd::prelude::*;

verus! {

/// Transfer direction, or a kernel dispatch.
#[derive(Debug, Clone, Copy, PartialEq, Eq, Structural)]
pub enum Dir {
    H2D,
    D2H,
    Kernel,
}

/// The label of a direction in the trace file.
pub open spec fn dir_label(d: Dir) -> Seq<char> {
    match d {
        Dir::H2D => "H2D"@,
        Dir::D2H => "D2H"@,
        Dir::Kernel => "Kernel"@,
    }
}

impl Dir {
    /// The label of this direction in the trace file.
    pub fn as_str(self) -> (r: &'static str)
        ensures
            r@ == dir_label(self),
    {
        match self {
            Dir::H2D => {
                proof {
                    reveal_strlit("H2D");
                }
                "H2D"
            },
            Dir::D2H => {
                proof {
                    reveal_strlit("D2H");
                }
                "D2H"
            },
            Dir::Kernel => {
                proof {
                    reveal_strlit("Kernel");
                }
                "Kernel"
            },
        }
    }
}

/// One completed operation on the timeline, in microseconds since the epoch.
#[derive(Debug, Clone, Copy, PartialEq, Eq, Structural)]
pub struct TraceRecord {
    pub start_us: u128,
    pub end_us: u128,
    pub bytes: usize,
    pub dir: Dir,
    pub idle_us: u128,
}

/// The gap between the previous record's end and this record's start; zero
/// when they overlap.
pub open spec fn idle_gap(prev_end: int, start: int) -> int {
    if start > prev_end {
        start - prev_end
    } else {
        0
    }
}

/// The end of the most recently appended record, or zero on an empty log.
pub open spec fn last_end(log: Seq<TraceRecord>) -> int {
    if log.len() == 0 {
        0
    } else {
        log.last().end_us as int
    }
}

/// Every record's idle time is measured from the record appended just before it.
pub open spec fn idle_consistent(log: Seq<TraceRecord>) -> bool {
    forall|i: int|
        0 <= i < log.len() ==> (#[trigger] log[i]).idle_us == idle_gap(
            last_end(log.subrange(0, i)),
            log[i].start_us as int,
        )
}

/// What a tracer holds: its epoch, the auto-trace flag and the timeline.
pub struct TracerView {
    pub epoch: std::time::Instant,
    pub auto_trace: bool,
    pub log: Seq<TraceRecord>,
}

impl TracerView {
    /// The tracer with the auto-trace flag set to `on`.
    pub open spec fn with_auto(self, on: bool) -> TracerView {
        TracerView { auto_trace: on, ..self }
    }

    /// The tracer after one more completed operation.
    pub open spec fn appended(self, start_us: u128, end_us: u128, bytes: usize, dir: Dir) -> TracerView {
        TracerView {
            log: self.log.push(
                TraceRecord {
                    start_us,
                    end_us,
                    bytes,
                    dir,
                    idle_us: idle_gap(last_end(self.log), start_us as int) as u128,
                },
            ),
            ..self
        }
    }
}

/// The transfer tracer: a fixed epoch, the timeline, and the auto-trace
/// flag, held by its callers and passed on.
pub struct Tracer {
    epoch: std::time::Instant,
    log: Vec<TraceRecord>,
    auto_trace: bool,
}

impl View for Tracer {
    type V = TracerView;

    closed spec fn view(&self) -> TracerView {
        TracerView { epoch: self.epoch, auto_trace: self.auto_trace, log: self.log@ }
    }
}

impl Tracer {
    /// A tracer whose epoch is now, with auto-tracing on and an empty timeline.
    pub fn new() -> (r: Tracer)
        ensures
            r@.auto_trace,
            r@.log.len() == 0,
    {
        Tracer { epoch: now(), log: Vec::new(), auto_trace: true }
    }

    /// The timeline, in the order the records were appended.
    pub fn records(&self) -> (r: &Vec<TraceRecord>)
        ensures
            r@ == self@.log,
    {
        &self.log
    }

    /// Appends a completed operation; its idle time is measured from the end
    /// of the record appended last (or from zero on an empty timeline).
    pub fn append(&mut self, start_us: u128, end_us: u128, bytes: usize, dir: Dir)
        ensures
            final(self)@ == old(self)@.appended(start_us, end_us, bytes, dir),
    {
        let prev_end: u128 = if self.log.len() == 0 {
            0
        } else {
            self.log[self.log.len() - 1].end_us
        };
        let idle: u128 = if start_us > prev_end { start_us - prev_end } else { 0 };
        self.log.push(TraceRecord { start_us, end_us, bytes, dir, idle_us: idle });
    }
}

/// Whether transfers are traced automatically.
pub fn is_auto_trace_enabled(tracer: &Tracer) -> (r: bool)
    ensures
        r == tracer@.auto_trace,
{
    tracer.auto_trace
}

/// Turns automatic tracing on.
pub fn enable_auto_trace(tracer: &mut Tracer)
    ensures
        final(tracer)@ == old(tracer)@.with_auto(true),
{
    tracer.auto_trace = true;
}

/// Turns automatic tracing off.
pub fn disable_auto_trace(tracer: &mut Tracer)
    ensures
        final(tracer)@ == old(tracer)@.with_auto(false),
{
    tracer.auto_trace = false;
}

/// A pending trace of one operation: when it started, how many bytes, and
/// which direction.
pub struct CopyToken {
    start: std::time::Instant,
    bytes: usize,
    dir: Dir,
}

impl CopyToken {
    pub closed spec fn bytes(&self) -> usize {
        self.bytes
    }

    pub closed spec fn dir(&self) -> Dir {
        self.dir
    }

    /// Ends the operation now: appends its record, with start and end in
    /// microseconds since the tracer's epoch (an end reading earlier than
    /// the start is taken as the start) and the idle time since the record
    /// appended last. The clock decides the two times.
    pub fn finish(self, tracer: &mut Tracer)
        ensures
            final(tracer)@.epoch == old(tracer)@.epoch,
            final(tracer)@.auto_trace == old(tracer)@.auto_trace,
            finished_record(old(tracer)@.log, final(tracer)@.log, self.bytes(), self.dir()),
    {
        let s = micros_between(&tracer.epoch, &self.start);
        let e = elapsed_micros(&tracer.epoch);
        let e = if e < s { s } else { e };
        tracer.append(s, e, self.bytes, self.dir);
        assert(tracer@.log.drop_last() =~= old(tracer)@.log);
    }
}

/// `after` is `before` with one more record, of `bytes` bytes in direction
/// `dir`, that does not end before it starts and whose idle time is measured
/// from the end of `before`'s last record.
pub open spec fn finished_record(before: Seq<TraceRecord>, after: Seq<TraceRecord>, bytes: usize, dir: Dir) -> bool {
    &&& after.len() == before.len() + 1
    &&& after.drop_last() == before
    &&& after.last().bytes == bytes
    &&& after.last().dir == dir
    &&& after.last().end_us >= after.last().start_us
    &&& after.last().idle_us == idle_gap(last_end(before), after.last().start_us as int)
}

/// Starts tracing one operation of `bytes` bytes in direction `dir`.
pub fn start(tracer: &Tracer, dir: Dir, bytes: usize) -> (r: CopyToken)
    ensures
        r.bytes() == bytes,
        r.dir() == dir,
{
    CopyToken { start: now(), bytes, dir }
}

/// Starts tracing one operation if, and only if, auto-tracing is on.
pub fn start_if_enabled(tracer: &Tracer, dir: Dir, bytes: usize) -> (r: Option<CopyToken>)
    ensures
        r is Some <==> tracer@.auto_trace,
        r matches Some(t) ==> t.bytes() == bytes && t.dir() == dir,
{
    if is_auto_trace_enabled(tracer) {
        Some(start(tracer, dir, bytes))
    } else {
        None
    }
}

/// A scoped override of the auto-trace flag that remembers the value it
/// replaced; `restore` puts that value back.
pub struct TracingScope {
    prev_state: bool,
}

impl TracingScope {
    /// The auto-trace value this scope puts back when it ends.
    pub closed spec fn saved(&self) -> bool {
        self.prev_state
    }

    /// Turns auto-tracing off until the scope is restored.
    pub fn disabled(tracer: &mut Tracer) -> (r: TracingScope)
        ensures
            r.saved() == old(tracer)@.auto_trace,
            final(tracer)@ == old(tracer)@.with_auto(false),
    {
        let prev_state = tracer.auto_trace;
        tracer.auto_trace = false;
        TracingScope { prev_state }
    }

    /// Turns auto-tracing on until the scope is restored.
    pub fn enabled(tracer: &mut Tracer) -> (r: TracingScope)
        ensures
            r.saved() == old(tracer)@.auto_trace,
            final(tracer)@ == old(tracer)@.with_auto(true),
    {
        let prev_state = tracer.auto_trace;
        tracer.auto_trace = true;
        TracingScope { prev_state }
    }

    /// Runs `body` with auto-tracing set to `on`, then gives the flag back
    /// the value it had before, whatever `body` did with it, on every way
    /// out of `body`.
    pub fn scoped<R, F>(tracer: &mut Tracer, on: bool, body: F) -> (r: R) where F: FnOnce(&mut Tracer) -> R,
        requires
            forall|t: &mut Tracer| body.requires((t,)),
        ensures
            final(tracer)@.auto_trace == old(tracer)@.auto_trace,
    {
        let scope = if on {
            TracingScope::enabled(tracer)
        } else {
            TracingScope::disabled(tracer)
        };
        let r = body(tracer);
        scope.restore(tracer);
        r
    }

    /// Ends the scope: the flag gets back the value seen when it began.
    pub fn restore(self, tracer: &mut Tracer)
        ensures
            final(tracer)@ == old(tracer)@.with_auto(self.saved()),
    {
        tracer.auto_trace = self.prev_state;
    }
}


/// Appending keeps every idle time measured from the record appended just
/// before it: the order of appends, not of start times, decides.
pub proof fn lemma_append_keeps_idle_consistent(
    t: TracerView,
    start_us: u128,
    end_us: u128,
    bytes: usize,
    dir: Dir,
)
    requires
        idle_consistent(t.log),
    ensures
        idle_consistent(t.appended(start_us, end_us, bytes, dir).log),
{
    let log = t.appended(start_us, end_us, bytes, dir).log;
    assert forall|i: int| 0 <= i < log.len() implies (#[trigger] log[i]).idle_us == idle_gap(
        last_end(log.subrange(0, i)),
        log[i].start_us as int,
    ) by {
        assert(log.subrange(0, i) =~= t.log.subrange(0, i) || i == t.log.len());
        if i == t.log.len() {
            assert(log.subrange(0, i) =~= t.log);
        } else {
            assert(log.subrange(0, i) =~= t.log.subrange(0, i));
        }
    }
}

/// Scopes nest: whatever the flag was, entering a scope (either kind), then
/// another inside it, and restoring both in reverse order leaves the flag
/// and the timeline as they were.
pub proof fn lemma_nested_scopes_restore(t: TracerView, outer_on: bool, inner_on: bool)
    ensures
        ({
            let in_outer = t.with_auto(outer_on);
            let in_inner = in_outer.with_auto(inner_on);
            let after_inner = in_inner.with_auto(in_outer.auto_trace);
            after_inner.with_auto(t.auto_trace)
        }) == t,
{
}

} // verus!
