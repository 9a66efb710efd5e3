//! Device buffers whose lifecycle phase is part of their type, and the
//! guards that tie a buffer's readiness to the completion of its operation.
use crate::backend::{execution_status, now, wait_for, CL_COMPLETE};
use crate::error::ClError;
use crate::memtracer::{finished_record, start_if_enabled, CopyToken, Dir, Tracer};
use crate::metrics::{lemma_alloc_free_cancels, lemma_counters_fit, record, Metrics};
use crate::state::{legal_step, valid_trail, InFlight, Phase, Queued, Ready, State};
use opencl3::error_codes::ClError as OclError;
use opencl3::event::Event;
use opencl3::memory::Buffer;
use std::marker::PhantomData;
use vstd::prelude::*;

verus! {

/// Owns exactly one completion event (and, when the operation is traced, its
/// pending trace). Waiting consumes the guard; a guard dropped without an
/// explicit wait blocks on the event in its destructor.
pub struct GpuEventGuard {
    evt: Option<Event>,
    trace: Option<CopyToken>,
}

impl Drop for GpuEventGuard {
    fn drop(&mut self)
        opens_invariants none
        no_unwind
    {
        if let Some(evt) = &self.evt {
            let _ = wait_for(evt);
        }
    }
}

impl GpuEventGuard {
    /// The completion event the guard waits on (none once it was waited on).
    pub closed spec fn event(&self) -> Option<Event> {
        self.evt
    }

    /// Whether the guarded operation carries a pending trace.
    pub closed spec fn traced(&self) -> bool {
        self.trace is Some
    }

    /// The size the pending trace records.
    pub closed spec fn trace_bytes(&self) -> usize {
        self.trace->Some_0.bytes()
    }

    /// The direction the pending trace records.
    pub closed spec fn trace_dir(&self) -> Dir {
        self.trace->Some_0.dir()
    }

    fn new(evt: Event, trace: Option<CopyToken>) -> (r: GpuEventGuard)
        ensures
            r.event() == Some(evt),
            r.traced() == trace is Some,
            trace matches Some(t) ==> r.trace_bytes() == t.bytes() && r.trace_dir() == t.dir(),
    {
        GpuEventGuard { evt: Some(evt), trace }
    }

    /// Blocks until the operation has finished and reports the runtime's
    /// status for it (a guard without an event reports success). A pending
    /// trace is then finished into `tracer`; without one, the tracer is left
    /// as it was.
    pub fn wait(self, tracer: &mut Tracer) -> (r: Result<(), ClError>)
        ensures
            r matches Err(e) ==> e is Api,
            self.event() is None ==> r is Ok,
            final(tracer)@.auto_trace == old(tracer)@.auto_trace,
            final(tracer)@.epoch == old(tracer)@.epoch,
            !self.traced() ==> final(tracer)@ == old(tracer)@,
            self.traced() ==> finished_record(old(tracer)@.log, final(tracer)@.log, self.trace_bytes(), self.trace_dir()),
    {
        let mut guard = self;
        let evt = guard.evt.take();
        let trace = guard.trace.take();
        let status = match evt {
            Some(evt) => wait_for(&evt),
            None => Ok(()),
        };
        if let Some(token) = trace {
            token.finish(tracer);
        }
        wait_result(status)
    }

    /// The guarded event, for attaching a completion callback to it.
    pub fn event_ref(&self) -> (r: Option<&Event>)
        ensures
            r matches Some(e) ==> self.event() == Some(*e),
            r is None <==> self.event() is None,
    {
        match &self.evt {
            Some(e) => Some(e),
            None => None,
        }
    }

    /// Takes the pending trace out of the guard, for a caller that finishes
    /// it elsewhere (from the runtime's completion callback); the guard
    /// keeps its event and still waits on it.
    pub fn detach_trace(&mut self) -> (r: Option<CopyToken>)
        ensures
            final(self).event() == old(self).event(),
            !final(self).traced(),
            r is Some <==> old(self).traced(),
            r matches Some(t) ==> t.bytes() == old(self).trace_bytes() && t.dir() == old(self).trace_dir(),
    {
        self.trace.take()
    }

    /// The execution status the runtime reports for the guarded event; a
    /// guard without an event counts as complete.
    fn poll(&self) -> (r: Result<i32, OclError>)
        ensures
            self.event() is None ==> r == Ok::<i32, OclError>(CL_COMPLETE),
    {
        match &self.evt {
            Some(evt) => execution_status(evt),
            None => Ok(CL_COMPLETE),
        }
    }

    /// Whether the runtime reports the operation as complete; no blocking.
    pub fn is_complete(&self) -> (r: bool)
        ensures
            self.event() is None ==> r,
    {
        reports_complete(&self.poll())
    }
}

/// What a wait on an event returns, given the status the runtime reported.
pub fn wait_result(status: Result<(), OclError>) -> (r: Result<(), ClError>)
    ensures
        status is Ok <==> r is Ok,
        status matches Err(e) ==> r == Err::<(), ClError>(ClError::Api(e.0)),
{
    match status {
        Ok(()) => Ok(()),
        Err(e) => Err(ClError::from(e)),
    }
}

/// A reported execution status that means the command has finished.
pub open spec fn is_complete_status(status: Result<i32, OclError>) -> bool {
    status matches Ok(c) && c == CL_COMPLETE
}

/// Whether a reported execution status says the command has finished; an
/// error from the query counts as not finished.
pub fn reports_complete(status: &Result<i32, OclError>) -> (r: bool)
    ensures
        r == is_complete_status(*status),
{
    match status {
        Ok(c) => *c == CL_COMPLETE,
        Err(_) => false,
    }
}

/// A device buffer of `len` bytes whose lifecycle phase is the type `S`.
/// Every transition takes the buffer by value and returns it in its next
/// phase, so a buffer cannot be used in a phase it has left.
pub struct GpuBuffer<S> {
    buf: Buffer<u8>,
    len: usize,
    trail: Ghost<Seq<Phase>>,
    _state: PhantomData<S>,
}

/// The phase history of a fresh allocation.
pub open spec fn fresh_trail() -> Seq<Phase> {
    seq![Phase::Queued]
}

impl<S: State> GpuBuffer<S> {
    /// The phases this allocation has been through, oldest first.
    pub closed spec fn trail(&self) -> Seq<Phase> {
        self.trail@
    }

    /// The runtime's handle of this allocation.
    pub closed spec fn handle(&self) -> Buffer<u8> {
        self.buf
    }

    /// The buffer's length in bytes.
    pub closed spec fn size(&self) -> nat {
        self.len as nat
    }

    /// A non-empty allocation whose history starts at allocation, takes only
    /// legal steps, and ends in the phase its type names.
    pub open spec fn wf(&self) -> bool {
        &&& valid_trail(self.trail())
        &&& self.trail().last() == S::phase()
        &&& self.size() > 0
    }

    /// The runtime's handle, for binding the buffer as a kernel argument.
    /// It is not a licence to read the contents before the buffer is `Ready`.
    pub fn raw(&self) -> (r: &Buffer<u8>)
        ensures
            *r == self.handle(),
    {
        &self.buf
    }

    /// The runtime's handle, mutably, for submitting work against it.
    pub fn raw_mut(&mut self) -> (r: &mut Buffer<u8>)
        ensures
            *r == old(self).handle(),
            final(self).handle() == *final(r),
            final(self).size() == old(self).size(),
            final(self).trail() == old(self).trail(),
    {
        &mut self.buf
    }

    /// Length in bytes.
    pub fn len(&self) -> (r: usize)
        ensures
            r == self.size(),
    {
        self.len
    }

    /// Whether the buffer holds no bytes (never, for a well-formed buffer).
    pub fn is_empty(&self) -> (r: bool)
        ensures
            r == (self.size() == 0),
    {
        self.len == 0
    }

    /// Destroys the buffer and takes it off the allocation counters.
    pub fn release(self, metrics: &mut Metrics)
        ensures
            final(metrics)@ == old(metrics)@.freed(self.size() as int),
    {
        metrics.track_free(self.len);
    }

    /// Gives up the typestate wrapper and returns the runtime's handle.
    pub(crate) fn into_raw(self) -> (r: Buffer<u8>)
        ensures
            r == self.handle(),
    {
        self.buf
    }

    /// The same allocation in phase `T`, one step further in its history.
    fn advance<T: State>(self) -> (r: GpuBuffer<T>)
        requires
            self.wf(),
            legal_step(S::phase(), T::phase()),
        ensures
            r.wf(),
            r.handle() == self.handle(),
            r.size() == self.size(),
            r.trail() == self.trail().push(T::phase()),
    {
        let GpuBuffer { buf, len, trail, _state } = self;
        let r = GpuBuffer::<T> { buf, len, trail: Ghost(trail@.push(T::phase())), _state: PhantomData };
        proof {
            assert forall|i: int| 0 <= i < r.trail().len() - 1 implies #[trigger] legal_step(
                r.trail()[i],
                r.trail()[i + 1],
            ) by {
                if i < trail@.len() - 1 {
                    assert(legal_step(trail@[i], trail@[i + 1]));
                }
            }
        }
        r
    }

    /// Moves the buffer in flight once its operation was submitted, timing
    /// the submission under `op`; on a failed submission, releases the
    /// buffer and returns the runtime's error code.
    fn into_in_flight(
        self,
        submitted: Result<Event, OclError>,
        trace: Option<CopyToken>,
        op: &str,
        started: &std::time::Instant,
        metrics: &mut Metrics,
    ) -> (r: Result<(GpuBuffer<InFlight>, GpuEventGuard), ClError>)
        requires
            self.wf(),
            legal_step(S::phase(), Phase::InFlight),
        ensures
            submitted is Ok <==> r is Ok,
            submitted matches Err(e) ==> r == Err::<(GpuBuffer<InFlight>, GpuEventGuard), ClError>(ClError::Api(e.0)),
            submitted is Err ==> final(metrics)@ == old(metrics)@.freed(self.size() as int),
            r matches Ok((b, g)) ==> {
                &&& b.wf()
                &&& b.handle() == self.handle()
                &&& b.size() == self.size()
                &&& b.trail() == self.trail().push(Phase::InFlight)
                &&& (submitted matches Ok(e) && g.event() == Some(e))
                &&& g.traced() == trace is Some
                &&& (trace matches Some(t) ==> g.trace_bytes() == t.bytes() && g.trace_dir() == t.dir())
                &&& final(metrics)@.samples.drop_last() == old(metrics)@.samples
                &&& final(metrics)@.samples.last().0 == op@
                &&& final(metrics)@.allocations == old(metrics)@.allocations
                &&& final(metrics)@.allocated_bytes == old(metrics)@.allocated_bytes
            },
    {
        match submitted {
            Ok(evt) => {
                record(metrics, op, started);
                let b = self.advance::<InFlight>();
                Ok((b, GpuEventGuard::new(evt, trace)))
            },
            Err(e) => {
                self.release(metrics);
                Err(ClError::from(e))
            },
        }
    }
}

impl GpuBuffer<Queued> {
    /// Wraps an allocation of `len` bytes taken back from a pool.
    pub(crate) fn adopt(buf: Buffer<u8>, len: usize) -> (r: GpuBuffer<Queued>)
        requires
            len > 0,
        ensures
            r.wf(),
            r.handle() == buf,
            r.size() == len,
            r.trail() == fresh_trail(),
    {
        GpuBuffer { buf, len, trail: Ghost(fresh_trail()), _state: PhantomData }
    }

    /// Allocates `len` bytes through `create`, which asks the runtime for
    /// them. A zero length is rejected before `create` is called; a failure
    /// of `create` is returned as its error code; on success the buffer is
    /// counted on the allocation counters and the allocation is timed.
    pub fn new<F>(len: usize, create: F, metrics: &mut Metrics) -> (r: Result<Self, ClError>) where
        F: FnOnce(usize) -> Result<Buffer<u8>, OclError>,
        requires
            len > 0 ==> create.requires((len,)),
        ensures
            len == 0 ==> r == Err::<Self, ClError>(ClError::InvalidSize(0)) && final(metrics)@ == old(metrics)@,
            len > 0 ==> exists|created: Result<Buffer<u8>, OclError>|
                {
                    &&& #[trigger] create.ensures((len,), created)
                    &&& (created is Ok <==> r is Ok)
                    &&& (created matches Err(e) ==> r == Err::<Self, ClError>(ClError::Api(e.0)))
                    &&& (created matches Ok(buf) ==> r matches Ok(b) && b.handle() == buf)
                },
            r matches Err(_) ==> final(metrics)@ == old(metrics)@,
            r matches Ok(b) ==> {
                &&& b.wf()
                &&& b.size() == len
                &&& b.trail() == fresh_trail()
                &&& final(metrics)@.samples.drop_last() == old(metrics)@.samples
                &&& final(metrics)@.samples.last().0 == "GpuBuffer::new"@
                &&& final(metrics)@.allocations == old(metrics)@.allocated(len as int).allocations
                &&& final(metrics)@.allocated_bytes == old(metrics)@.allocated(len as int).allocated_bytes
            },
    {
        if len == 0 {
            return Err(ClError::InvalidSize(len));
        }
        let t = now();
        let created = create(len);
        GpuBuffer::from_allocation(created, len, &t, metrics)
    }

    /// Takes the runtime's answer to a request for `len` bytes started at
    /// `started`: a new buffer holding the allocation, counted and timed, or
    /// the runtime's error code with the counters untouched.
    pub fn from_allocation(
        created: Result<Buffer<u8>, OclError>,
        len: usize,
        started: &std::time::Instant,
        metrics: &mut Metrics,
    ) -> (r: Result<Self, ClError>)
        requires
            len > 0,
        ensures
            created is Ok <==> r is Ok,
            created matches Err(e) ==> r == Err::<Self, ClError>(ClError::Api(e.0)) && final(metrics)@ == old(
                metrics,
            )@,
            created matches Ok(buf) ==> r matches Ok(b) && b.handle() == buf,
            r matches Ok(b) ==> {
                &&& b.wf()
                &&& b.size() == len
                &&& b.trail() == fresh_trail()
                &&& final(metrics)@.samples.drop_last() == old(metrics)@.samples
                &&& final(metrics)@.samples.last().0 == "GpuBuffer::new"@
                &&& final(metrics)@.allocations == old(metrics)@.allocated(len as int).allocations
                &&& final(metrics)@.allocated_bytes == old(metrics)@.allocated(len as int).allocated_bytes
            },
    {
        match created {
            Ok(buf) => {
                metrics.track_alloc(len);
                record(metrics, "GpuBuffer::new", started);
                Ok(GpuBuffer { buf, len, trail: Ghost(fresh_trail()), _state: PhantomData })
            },
            Err(e) => Err(ClError::from(e)),
        }
    }

    /// Allocates a buffer of `data.len()` bytes through `create`, copies
    /// `data` into it through `submit`, and waits for the copy: the result is
    /// ready. Fails as `new` and `enqueue_write` fail; on a failed
    /// allocation the counters are untouched, on a failed submission the
    /// allocation is counted and released again.
    pub fn from_slice<C, W>(data: &[u8], create: C, submit: W, metrics: &mut Metrics, tracer: &mut Tracer) -> (r:
        Result<GpuBuffer<Ready>, ClError>) where
        C: FnOnce(usize) -> Result<Buffer<u8>, OclError>,
        W: FnOnce(&Buffer<u8>, &[u8]) -> Result<Event, OclError>,
        requires
            data@.len() > 0 ==> create.requires((data@.len() as usize,)),
            forall|b: &Buffer<u8>| submit.requires((b, data)),
        ensures
            data@.len() == 0 ==> r == Err::<GpuBuffer<Ready>, ClError>(ClError::InvalidSize(0))
                && final(metrics)@ == old(metrics)@,
            data@.len() > 0 ==> exists|created: Result<Buffer<u8>, OclError>|
                {
                    &&& #[trigger] create.ensures((data@.len() as usize,), created)
                    &&& (created matches Err(e) ==> r == Err::<GpuBuffer<Ready>, ClError>(ClError::Api(e.0))
                        && final(metrics)@ == old(metrics)@)
                    &&& (created matches Ok(buf) ==> exists|submitted: Result<Event, OclError>|
                        {
                            &&& #[trigger] submit.ensures((&buf, data), submitted)
                            &&& (submitted is Ok <==> r is Ok)
                            &&& (submitted matches Err(e) ==> r == Err::<GpuBuffer<Ready>, ClError>(ClError::Api(e.0)))
                            &&& (r matches Ok(b) ==> b.handle() == buf)
                        })
                },
            r matches Ok(b) ==> {
                &&& b.wf()
                &&& b.size() == data@.len()
                &&& b.trail() == seq![Phase::Queued, Phase::InFlight, Phase::Ready]
                &&& final(metrics)@.allocations == old(metrics)@.allocated(data@.len() as int).allocations
                &&& final(metrics)@.allocated_bytes == old(metrics)@.allocated(data@.len() as int).allocated_bytes
            },
            r is Err && data@.len() > 0 ==> {
                &&& final(metrics)@.allocations == old(metrics)@.allocations
                &&& final(metrics)@.allocated_bytes == old(metrics)@.allocated_bytes
            },
            final(tracer)@.auto_trace == old(tracer)@.auto_trace,
            final(tracer)@.epoch == old(tracer)@.epoch,
    {
        proof {
            lemma_counters_fit(&*old(metrics));
        }
        let fresh = GpuBuffer::new(data.len(), create, metrics)?;
        match fresh.enqueue_write(data, submit, metrics, tracer) {
            Ok((in_flight, guard)) => Ok(in_flight.into_ready(guard, metrics, tracer)),
            Err(e) => {
                proof {
                    lemma_alloc_free_cancels(old(metrics)@, data@.len() as int);
                }
                Err(e)
            },
        }
    }

    /// Submits the asynchronous copy of `host` into the buffer through
    /// `submit`, which is handed this buffer's handle and `host`, and moves
    /// the buffer in flight together with the guard of the event `submit`
    /// returned. When auto-tracing is on, the guard carries a host-to-device
    /// trace of `host.len()` bytes. A failed submission is returned as its
    /// error code, and the buffer is released.
    pub fn enqueue_write<F>(self, host: &[u8], submit: F, metrics: &mut Metrics, tracer: &Tracer) -> (r:
        Result<(GpuBuffer<InFlight>, GpuEventGuard), ClError>) where
        F: FnOnce(&Buffer<u8>, &[u8]) -> Result<Event, OclError>,
        requires
            self.wf(),
            host@.len() == self.size(),
            submit.requires((&self.handle(), host)),
        ensures
            exists|submitted: Result<Event, OclError>|
                {
                    &&& #[trigger] submit.ensures((&self.handle(), host), submitted)
                    &&& (submitted is Ok <==> r is Ok)
                    &&& (submitted matches Err(e) ==> r == Err::<(GpuBuffer<InFlight>, GpuEventGuard), ClError>(ClError::Api(e.0)))
                    &&& (r matches Ok((b, g)) ==> submitted matches Ok(e) && g.event() == Some(e))
                },
            r matches Ok((b, g)) ==> {
                &&& b.wf()
                &&& b.handle() == self.handle()
                &&& b.size() == self.size()
                &&& b.trail() == self.trail().push(Phase::InFlight)
                &&& g.traced() == tracer@.auto_trace
                &&& (g.traced() ==> g.trace_bytes() == host@.len() && g.trace_dir() == Dir::H2D)
                &&& final(metrics)@.samples.drop_last() == old(metrics)@.samples
                &&& final(metrics)@.samples.last().0 == "enqueue_write"@
                &&& final(metrics)@.allocations == old(metrics)@.allocations
                &&& final(metrics)@.allocated_bytes == old(metrics)@.allocated_bytes
            },
            r is Err ==> final(metrics)@ == old(metrics)@.freed(self.size() as int),
    {
        let t = now();
        let trace = start_if_enabled(tracer, Dir::H2D, host.len());
        let submitted = submit(&self.buf, host);
        self.into_in_flight(submitted, trace, "enqueue_write", &t, metrics)
    }

    /// Marks the buffer as the output of a kernel dispatch: no host data
    /// touches it, but it stays in flight until the dispatch's event is
    /// confirmed with `complete`.
    pub fn launch(self, metrics: &mut Metrics) -> (r: GpuBuffer<InFlight>)
        requires
            self.wf(),
        ensures
            r.wf(),
            r.handle() == self.handle(),
            r.size() == self.size(),
            r.trail() == self.trail().push(Phase::InFlight),
            final(metrics)@.allocations == old(metrics)@.allocations,
            final(metrics)@.allocated_bytes == old(metrics)@.allocated_bytes,
    {
        let t = now();
        record(metrics, "launch", &t);
        self.advance()
    }
}

impl GpuBuffer<Ready> {
    /// Submits the asynchronous copy of the buffer into `host_out` through
    /// `submit`, which is handed this buffer's handle and `host_out`, and
    /// moves the buffer in flight together with the guard of the event
    /// `submit` returned; `host_out` must not be read before the guard is
    /// satisfied. When auto-tracing is on, the guard carries a device-to-host
    /// trace of `host_out.len()` bytes. A failed submission is returned as
    /// its error code, and the buffer is released.
    pub fn enqueue_read<F>(self, host_out: &mut [u8], submit: F, metrics: &mut Metrics, tracer: &Tracer) -> (r:
        Result<(GpuBuffer<InFlight>, GpuEventGuard), ClError>) where
        F: FnOnce(&Buffer<u8>, &mut [u8]) -> Result<Event, OclError>,
        requires
            self.wf(),
            old(host_out)@.len() == self.size(),
            forall|b: &Buffer<u8>, h: &mut [u8]| submit.requires((b, h)),
        ensures
            exists|b: &Buffer<u8>, h: &mut [u8], submitted: Result<Event, OclError>|
                {
                    &&& *b == self.handle()
                    &&& #[trigger] submit.ensures((b, h), submitted)
                    &&& (submitted is Ok <==> r is Ok)
                    &&& (submitted matches Err(e) ==> r == Err::<(GpuBuffer<InFlight>, GpuEventGuard), ClError>(ClError::Api(e.0)))
                    &&& (r matches Ok((b, g)) ==> submitted matches Ok(e) && g.event() == Some(e))
                },
            r matches Ok((b, g)) ==> {
                &&& b.wf()
                &&& b.handle() == self.handle()
                &&& b.size() == self.size()
                &&& b.trail() == self.trail().push(Phase::InFlight)
                &&& g.traced() == tracer@.auto_trace
                &&& (g.traced() ==> g.trace_bytes() == old(host_out)@.len() && g.trace_dir() == Dir::D2H)
                &&& final(metrics)@.samples.drop_last() == old(metrics)@.samples
                &&& final(metrics)@.samples.last().0 == "enqueue_read"@
                &&& final(metrics)@.allocations == old(metrics)@.allocations
                &&& final(metrics)@.allocated_bytes == old(metrics)@.allocated_bytes
            },
            r is Err ==> final(metrics)@ == old(metrics)@.freed(self.size() as int),
    {
        let t = now();
        let trace = start_if_enabled(tracer, Dir::D2H, host_out.len());
        let submitted = submit(&self.buf, host_out);
        self.into_in_flight(submitted, trace, "enqueue_read", &t, metrics)
    }
}

impl GpuBuffer<InFlight> {
    /// Blocks until `evt` (the event of the operation that put the buffer in
    /// flight) has completed, then returns the same allocation ready. A
    /// failure the runtime reports on this wait is counted in `metrics`.
    pub fn complete(self, evt: Event, metrics: &mut Metrics) -> (r: GpuBuffer<Ready>)
        requires
            self.wf(),
        ensures
            r.wf(),
            r.handle() == self.handle(),
            r.size() == self.size(),
            r.trail() == self.trail().push(Phase::Ready),
            final(metrics)@.samples.drop_last() == old(metrics)@.samples,
            final(metrics)@.samples.last().0 == "complete"@,
            final(metrics)@.allocations == old(metrics)@.allocations,
            final(metrics)@.allocated_bytes == old(metrics)@.allocated_bytes,
    {
        let status = wait_for(&evt);
        if status.is_err() {
            metrics.track_wait_failure();
        }
        let t = now();
        record(metrics, "complete", &t);
        self.advance()
    }

    /// Turns the same allocation ready on the strength of its guard: the
    /// guard is waited on here (a failure is counted in `metrics`), and its
    /// pending trace, if any, is finished into `tracer`.
    pub fn into_ready(self, guard: GpuEventGuard, metrics: &mut Metrics, tracer: &mut Tracer) -> (r:
        GpuBuffer<Ready>)
        requires
            self.wf(),
        ensures
            r.wf(),
            r.handle() == self.handle(),
            r.size() == self.size(),
            r.trail() == self.trail().push(Phase::Ready),
            final(metrics)@.samples.drop_last() == old(metrics)@.samples,
            final(metrics)@.samples.last().0 == "into_ready"@,
            final(metrics)@.allocations == old(metrics)@.allocations,
            final(metrics)@.allocated_bytes == old(metrics)@.allocated_bytes,
            final(tracer)@.auto_trace == old(tracer)@.auto_trace,
            final(tracer)@.epoch == old(tracer)@.epoch,
            !guard.traced() ==> final(tracer)@ == old(tracer)@,
            guard.traced() ==> finished_record(old(tracer)@.log, final(tracer)@.log, guard.trace_bytes(), guard.trace_dir()),
    {
        let status = guard.wait(tracer);
        if status.is_err() {
            metrics.track_wait_failure();
        }
        let t = now();
        record(metrics, "into_ready", &t);
        self.advance()
    }

    /// Decides on the status of the wait for the buffer's operation: on
    /// success the same allocation, ready; on failure that error, with the
    /// buffer (whose contents are then unknown) released.
    pub fn settle(self, status: Result<(), ClError>, metrics: &mut Metrics) -> (r: Result<
        GpuBuffer<Ready>,
        ClError,
    >)
        requires
            self.wf(),
        ensures
            status is Ok <==> r is Ok,
            status matches Err(e) ==> r == Err::<GpuBuffer<Ready>, ClError>(e)
                && final(metrics)@ == old(metrics)@.freed(self.size() as int),
            r matches Ok(b) ==> {
                &&& b.wf()
                &&& b.handle() == self.handle()
                &&& b.size() == self.size()
                &&& b.trail() == self.trail().push(Phase::Ready)
                &&& final(metrics)@.samples.drop_last() == old(metrics)@.samples
                &&& final(metrics)@.samples.last().0 == "confirm"@
                &&& final(metrics)@.allocations == old(metrics)@.allocations
                &&& final(metrics)@.allocated_bytes == old(metrics)@.allocated_bytes
            },
    {
        match status {
            Ok(()) => {
                let t = now();
                record(metrics, "confirm", &t);
                Ok(self.advance())
            },
            Err(e) => {
                self.release(metrics);
                Err(e)
            },
        }
    }

    /// Waits on the guard explicitly and settles the buffer on the status
    /// of that wait (see `settle`). A pending trace, if any, is finished
    /// into `tracer` either way.
    pub fn confirm(self, guard: GpuEventGuard, metrics: &mut Metrics, tracer: &mut Tracer) -> (r: Result<
        GpuBuffer<Ready>,
        ClError,
    >)
        requires
            self.wf(),
        ensures
            guard.event() is None ==> r is Ok,
            r matches Ok(b) ==> {
                &&& b.wf()
                &&& b.handle() == self.handle()
                &&& b.size() == self.size()
                &&& b.trail() == self.trail().push(Phase::Ready)
                &&& final(metrics)@.samples.drop_last() == old(metrics)@.samples
                &&& final(metrics)@.samples.last().0 == "confirm"@
                &&& final(metrics)@.allocations == old(metrics)@.allocations
                &&& final(metrics)@.allocated_bytes == old(metrics)@.allocated_bytes
            },
            r matches Err(e) ==> e is Api && final(metrics)@ == old(metrics)@.freed(self.size() as int),
            final(tracer)@.auto_trace == old(tracer)@.auto_trace,
            final(tracer)@.epoch == old(tracer)@.epoch,
            !guard.traced() ==> final(tracer)@ == old(tracer)@,
            guard.traced() ==> finished_record(old(tracer)@.log, final(tracer)@.log, guard.trace_bytes(), guard.trace_dir()),
    {
        let status = guard.wait(tracer);
        self.settle(status, metrics)
    }

    /// Decides on a reported execution status without blocking: if it says
    /// the operation is complete, the same allocation ready (the guard is
    /// consumed as by `into_ready`); else the buffer and its guard back,
    /// unchanged, and nothing else touched.
    pub fn ready_if_complete(
        self,
        guard: GpuEventGuard,
        status: Result<i32, OclError>,
        metrics: &mut Metrics,
        tracer: &mut Tracer,
    ) -> (r: Result<GpuBuffer<Ready>, (GpuBuffer<InFlight>, GpuEventGuard)>)
        requires
            self.wf(),
        ensures
            is_complete_status(status) <==> r is Ok,
            r matches Ok(b) ==> {
                &&& b.wf()
                &&& b.handle() == self.handle()
                &&& b.size() == self.size()
                &&& b.trail() == self.trail().push(Phase::Ready)
                &&& final(metrics)@.samples.drop_last() == old(metrics)@.samples
                &&& final(metrics)@.samples.last().0 == "into_ready"@
                &&& final(metrics)@.allocations == old(metrics)@.allocations
                &&& final(metrics)@.allocated_bytes == old(metrics)@.allocated_bytes
                &&& (!guard.traced() ==> final(tracer)@ == old(tracer)@)
                &&& (guard.traced() ==> finished_record(old(tracer)@.log, final(tracer)@.log, guard.trace_bytes(), guard.trace_dir()))
            },
            r matches Err((b, g)) ==> {
                &&& b.wf()
                &&& b.handle() == self.handle()
                &&& b.size() == self.size()
                &&& b.trail() == self.trail()
                &&& g.event() == guard.event()
                &&& g.traced() == guard.traced()
                &&& (guard.traced() ==> g.trace_bytes() == guard.trace_bytes() && g.trace_dir() == guard.trace_dir())
                &&& final(metrics)@ == old(metrics)@
                &&& final(tracer)@ == old(tracer)@
            },
            final(tracer)@.auto_trace == old(tracer)@.auto_trace,
            final(tracer)@.epoch == old(tracer)@.epoch,
    {
        if reports_complete(&status) {
            Ok(self.into_ready(guard, metrics, tracer))
        } else {
            Err((self, guard))
        }
    }

    /// Without blocking: asks the runtime for the guarded operation's status
    /// and decides on it as `ready_if_complete` does; a guard without an
    /// event counts as complete.
    pub fn try_complete(self, guard: GpuEventGuard, metrics: &mut Metrics, tracer: &mut Tracer) -> (r: Result<
        GpuBuffer<Ready>,
        (GpuBuffer<InFlight>, GpuEventGuard),
    >)
        requires
            self.wf(),
        ensures
            guard.event() is None ==> r is Ok,
            r matches Ok(b) ==> {
                &&& b.wf()
                &&& b.handle() == self.handle()
                &&& b.size() == self.size()
                &&& b.trail() == self.trail().push(Phase::Ready)
                &&& final(metrics)@.allocations == old(metrics)@.allocations
                &&& final(metrics)@.allocated_bytes == old(metrics)@.allocated_bytes
                &&& (!guard.traced() ==> final(tracer)@ == old(tracer)@)
                &&& (guard.traced() ==> finished_record(old(tracer)@.log, final(tracer)@.log, guard.trace_bytes(), guard.trace_dir()))
            },
            r matches Err((b, g)) ==> {
                &&& b.wf()
                &&& b.handle() == self.handle()
                &&& b.size() == self.size()
                &&& b.trail() == self.trail()
                &&& g.event() == guard.event()
                &&& g.traced() == guard.traced()
                &&& (guard.traced() ==> g.trace_bytes() == guard.trace_bytes() && g.trace_dir() == guard.trace_dir())
                &&& final(metrics)@ == old(metrics)@
                &&& final(tracer)@ == old(tracer)@
            },
            final(tracer)@.auto_trace == old(tracer)@.auto_trace,
            final(tracer)@.epoch == old(tracer)@.epoch,
    {
        let status = guard.poll();
        self.ready_if_complete(guard, status, metrics, tracer)
    }
}

/// Every time a buffer became ready, it had been in flight just before: no
/// transition produces a ready buffer other than from an in-flight one, and
/// a buffer's phases advance only by the legal steps from its allocation.
pub proof fn lemma_ready_only_after_in_flight<S: State>(b: &GpuBuffer<S>, i: int)
    requires
        b.wf(),
        0 <= i < b.trail().len(),
        b.trail()[i] == Phase::Ready,
    ensures
        i >= 1,
        b.trail()[i - 1] == Phase::InFlight,
        b.trail()[0] == Phase::Queued,
{
    assert(i != 0);
    let j = i - 1;
    assert(legal_step(b.trail()[j], b.trail()[j + 1]));
}

/// A ready buffer has been allocated, then in flight, then ready, at least.
pub proof fn lemma_ready_buffer_history(b: &GpuBuffer<Ready>)
    requires
        b.wf(),
    ensures
        b.trail().len() >= 3,
        b.trail()[b.trail().len() - 2] == Phase::InFlight,
{
    let n = b.trail().len() as int;
    lemma_ready_only_after_in_flight(b, n - 1);
    assert(n - 2 != 0);
}

} // verus!
