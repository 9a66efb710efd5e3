//! Recycling of device allocations by size.
use crate::backend::now;
use crate::buffer::{fresh_trail, GpuBuffer};
use crate::error::ClError;
use crate::metrics::Metrics;
use crate::state::{Queued, State};
use opencl3::context::Context;
use opencl3::error_codes::ClError as OclError;
use opencl3::memory::Buffer;
use std::collections::HashMap;
use vstd::prelude::*;

verus! {

broadcast use vstd::std_specs::hash::group_hash_axioms;

/// Free allocations kept for reuse, by size in bytes, and the context new
/// ones are created in.
///
/// A returned buffer is taken back in whatever phase it was; nothing here
/// checks that its last operation has completed before it is handed out
/// again.
pub struct BufferPool {
    free_buffers: HashMap<usize, Vec<Buffer<u8>>>,
    ctx: Context,
}

impl BufferPool {
    /// The free allocations of `size` bytes, in the order they were given
    /// back.
    pub closed spec fn free_list(&self, size: usize) -> Seq<Buffer<u8>> {
        if self.free_buffers@.contains_key(size) {
            self.free_buffers@[size]@
        } else {
            Seq::empty()
        }
    }

    /// The context new allocations are made in.
    pub closed spec fn context(&self) -> Context {
        self.ctx
    }

    /// An empty pool over `ctx`.
    pub fn new(ctx: Context) -> (r: BufferPool)
        ensures
            r.context() == ctx,
            forall|size: usize| r.free_list(size).len() == 0,
    {
        BufferPool { free_buffers: HashMap::new(), ctx }
    }

    /// A queued buffer of `size` bytes (a zero size is rejected as
    /// `GpuBuffer::new` rejects it). If the pool holds a free allocation of
    /// that size, the one given back last is reused and the counters are
    /// left alone, as it was counted when first made; else a new one comes
    /// from `create`, called with the pool's context, as `GpuBuffer::new`
    /// makes it.
    pub fn get_or_create<F>(&mut self, size: usize, create: F, metrics: &mut Metrics) -> (r: Result<
        GpuBuffer<Queued>,
        ClError,
    >) where F: FnOnce(&Context, usize) -> Result<Buffer<u8>, OclError>,
        requires
            create.requires((&old(self).context(), size)),
        ensures
            final(self).context() == old(self).context(),
            forall|other: usize| other != size ==> final(self).free_list(other) == old(self).free_list(other),
            size == 0 ==> r == Err::<GpuBuffer<Queued>, ClError>(ClError::InvalidSize(0))
                && final(metrics)@ == old(metrics)@,
            size > 0 && old(self).free_list(size).len() > 0 ==> {
                &&& r matches Ok(b) && b.handle() == old(self).free_list(size).last()
                &&& final(self).free_list(size) == old(self).free_list(size).drop_last()
                &&& final(metrics)@ == old(metrics)@
            },
            size == 0 || old(self).free_list(size).len() == 0 ==> final(self).free_list(size) == old(self).free_list(size),
            size > 0 && old(self).free_list(size).len() == 0 ==> exists|created: Result<Buffer<u8>, OclError>|
                {
                    &&& #[trigger] create.ensures((&old(self).context(), size), created)
                    &&& (created is Ok <==> r is Ok)
                    &&& (created matches Err(e) ==> r == Err::<GpuBuffer<Queued>, ClError>(ClError::Api(e.0))
                        && final(metrics)@ == old(metrics)@)
                    &&& (created matches Ok(buf) ==> r matches Ok(b) && b.handle() == buf
                        && final(metrics)@.allocations == old(metrics)@.allocated(size as int).allocations
                        && final(metrics)@.allocated_bytes == old(metrics)@.allocated(size as int).allocated_bytes)
                },
            r matches Ok(b) ==> b.wf() && b.size() == size && b.trail() == fresh_trail(),
    {
        let reusable = if size > 0 {
            self.free_buffers.remove(&size)
        } else {
            None
        };
        match reusable {
            Some(mut list) => {
                let popped = list.pop();
                if list.len() > 0 {
                    self.free_buffers.insert(size, list);
                }
                match popped {
                    Some(buf) => {
                        return Ok(GpuBuffer::adopt(buf, size));
                    },
                    None => {},
                }
            },
            None => {},
        }
        if size == 0 {
            return Err(ClError::InvalidSize(size));
        }
        let t = now();
        let created = create(&self.ctx, size);
        GpuBuffer::from_allocation(created, size, &t, metrics)
    }

    /// Takes back `buffer`'s allocation, in any phase, for reuse at its
    /// size: its handle goes to the end of that size's free list. The
    /// allocation counters still count it.
    pub fn return_buffer<S: State>(&mut self, buffer: GpuBuffer<S>)
        requires
            buffer.wf(),
        ensures
            final(self).context() == old(self).context(),
            final(self).free_list(buffer.size() as usize) == old(self).free_list(buffer.size() as usize).push(
                buffer.handle(),
            ),
            forall|other: usize| other != buffer.size() ==> final(self).free_list(other) == old(self).free_list(other),
    {
        let size = buffer.len();
        let buf = buffer.into_raw();
        let mut list = match self.free_buffers.remove(&size) {
            Some(list) => list,
            None => Vec::new(),
        };
        list.push(buf);
        self.free_buffers.insert(size, list);
    }
}

} // verus!
