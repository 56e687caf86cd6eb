//! Bookkeeping of a compute kernel that scores leaf positions in batches:
//! positions are dispatched until the batch limit, then the batch runs.
use vstd::prelude::*;
use super::buffer::Buffer;
use super::status::Status;

verus! {

/// Feeding positions to a kernel and collecting its results.
pub trait Dispatchable {
    /// Adds `count` positions held in `buffer` to the batch.
    fn dispatch(&mut self, buffer: &Buffer, count: usize) -> Result<usize, Status>;

    /// How many results are there for `target`.
    fn finish(&self, buffer: &Buffer, target: &mut [isize]) -> Result<usize, Status>;

    /// The kernel's status.
    fn poll(&self) -> Status;

    /// What `flush` leaves: `after` and the result `r`, from `self` and
    /// `buffer`.
    spec fn flushed(&self, buffer: &Buffer, after: &Self, r: Result<usize, Status>) -> bool;

    /// Runs what the batch holds.
    fn flush(&mut self, buffer: &Buffer) -> (r: Result<usize, Status>)
        ensures
            old(self).flushed(buffer, final(self), r),
    ;
}

/// A kernel flush: nothing to run is no error and changes nothing; a batch
/// with its memory freed is a fault, changing nothing; otherwise the batch
/// runs and its size is returned.
pub open spec fn kernel_flushed(k: Kernel, buffer: Buffer, after: Kernel, r: Result<usize, Status>) -> bool {
    &&& k.batch == 0 ==> r == Ok::<usize, Status>(0) && after == k
    &&& k.batch > 0 && buffer.capacity == 0 ==> r == Err::<usize, Status>(Status::Fault) && after == k
    &&& k.batch > 0 && buffer.capacity > 0 ==> r == Ok::<usize, Status>(k.batch) && after == ran(k)
}

/// A compute kernel.
#[derive(Debug)]
pub struct Kernel {
    /// Ready between runs.
    pub status: Status,
    /// Running.
    pub active: bool,
    /// Host and device share memory.
    pub shared: bool,
    /// Padding.
    pub pad: [u8; 5],
    /// Positions per batch.
    pub limit: usize,
    /// Positions in the current batch.
    pub batch: usize,
    /// Bytes per position.
    pub stride: usize,
    /// Threads per group.
    pub threads: usize,
    /// Positions dispatched to runs so far.
    pub dispatch: usize,
    /// Positions whose run finished so far.
    pub finish: usize,
    /// Padding.
    pub extra: [u8; 8],
}

/// The kernel after running its batch: the batch's positions are counted
/// as dispatched and finished (wrapping), and the batch empties.
pub open spec fn ran(k: Kernel) -> Kernel {
    Kernel {
        active: false,
        status: Status::Ready,
        dispatch: k.dispatch.wrapping_add(k.batch),
        finish: k.finish.wrapping_add(k.batch),
        batch: 0,
        ..k
    }
}

impl Kernel {
    /// A ready kernel taking `limit` positions of `stride` bytes per batch
    /// on `threads` threads per group, sharing memory when `unified`; a
    /// fault when any of the three is zero.
    pub fn init(limit: usize, stride: usize, threads: usize, unified: bool) -> (r: Result<Self, Status>)
        ensures
            limit == 0 || stride == 0 || threads == 0 ==> r == Err::<Self, Status>(Status::Fault),
            limit > 0 && stride > 0 && threads > 0 ==> r is Ok,
            match r {
                Ok(k) => k.status == Status::Ready && !k.active && k.shared == unified && k.limit
                    == limit && k.batch == 0 && k.stride == stride && k.threads == threads
                    && k.dispatch == 0 && k.finish == 0,
                Err(e) => e == Status::Fault,
            },
    {
        if limit == 0 || stride == 0 || threads == 0 {
            return Err(Status::Fault);
        }
        Ok(
            Self {
                status: Status::Ready,
                active: false,
                shared: unified,
                pad: [0; 5],
                limit,
                batch: 0,
                stride,
                threads,
                dispatch: 0,
                finish: 0,
                extra: [0; 8],
            },
        )
    }

    /// The status.
    pub fn status(&self) -> (r: Status)
        ensures
            r == self.status,
    {
        self.status
    }

    /// Positions per batch.
    pub fn limit(&self) -> (r: usize)
        ensures
            r == self.limit,
    {
        self.limit
    }

    /// Positions in the current batch.
    pub fn batch(&self) -> (r: usize)
        ensures
            r == self.batch,
    {
        self.batch
    }

    /// Bytes per position.
    pub fn stride(&self) -> (r: usize)
        ensures
            r == self.stride,
    {
        self.stride
    }

    /// Threads per group.
    pub fn threads(&self) -> (r: usize)
        ensures
            r == self.threads,
    {
        self.threads
    }

    /// Whether a run is going on.
    pub fn active(&self) -> (r: bool)
        ensures
            r == self.active,
    {
        self.active
    }

    /// Whether host and device share memory.
    pub fn shared(&self) -> (r: bool)
        ensures
            r == self.shared,
    {
        self.shared
    }

    /// Ready and not running.
    pub fn ready(&self) -> (r: bool)
        ensures
            r == (self.status == Status::Ready && !self.active),
    {
        matches!(self.status, Status::Ready) && !self.active
    }

    /// Runs the batch over `buffer`; returns its size. A fault, changing
    /// nothing, when the batch is empty or the memory is freed.
    pub fn execute(&mut self, buffer: &Buffer) -> (r: Result<usize, Status>)
        ensures
            buffer.capacity == 0 || old(self).batch == 0 ==> r == Err::<usize, Status>(Status::Fault)
                && *final(self) == *old(self),
            buffer.capacity > 0 && old(self).batch > 0 ==> r == Ok::<usize, Status>(old(self).batch)
                && *final(self) == ran(*old(self)),
    {
        if buffer.capacity() == 0 || self.batch == 0 {
            return Err(Status::Fault);
        }
        self.active = true;
        self.status = Status::Active;
        let count = self.batch;
        self.dispatch = self.dispatch.wrapping_add(count);
        self.finish = self.finish.wrapping_add(count);
        self.active = false;
        self.status = Status::Ready;
        self.batch = 0;
        Ok(count)
    }

    /// Back to ready with nothing batched, dispatched or finished.
    pub fn reset(&mut self)
        ensures
            *final(self) == (Kernel {
                status: Status::Ready,
                active: false,
                batch: 0,
                dispatch: 0,
                finish: 0,
                ..*old(self)
            }),
    {
        self.status = Status::Ready;
        self.active = false;
        self.batch = 0;
        self.dispatch = 0;
        self.finish = 0;
    }
}

impl Dispatchable for Kernel {
    open spec fn flushed(&self, buffer: &Buffer, after: &Self, r: Result<usize, Status>) -> bool {
        kernel_flushed(*self, *buffer, *after, r)
    }

    /// No positions is a fault and more than the batch has room for is
    /// full, changing nothing; otherwise they join the batch, which runs
    /// once it reaches the limit; returns the positions left in the batch.
    fn dispatch(&mut self, buffer: &Buffer, count: usize) -> (r: Result<usize, Status>)
        ensures
            count == 0 ==> r == Err::<usize, Status>(Status::Fault) && *final(self) == *old(self),
            count > 0 && old(self).batch + count > old(self).limit ==> r == Err::<usize, Status>(
                Status::Full,
            ) && *final(self) == *old(self),
            count > 0 && old(self).batch + count < old(self).limit ==> r == Ok::<usize, Status>(
                (old(self).batch + count) as usize,
            ) && *final(self) == (Kernel { batch: (old(self).batch + count) as usize, ..*old(self) }),
            count > 0 && old(self).batch + count == old(self).limit ==> ({
                let full = Kernel { batch: old(self).limit, ..*old(self) };
                if buffer.capacity == 0 {
                    r == Err::<usize, Status>(Status::Fault) && *final(self) == full
                } else {
                    r == Ok::<usize, Status>(0) && *final(self) == ran(full)
                }
            }),
    {
        if count == 0 {
            return Err(Status::Fault);
        }
        if self.batch > self.limit || count > self.limit - self.batch {
            return Err(Status::Full);
        }
        self.batch = self.batch + count;
        if self.batch >= self.limit {
            match self.execute(buffer) {
                Ok(_) => {},
                Err(e) => {
                    return Err(e);
                },
            }
        }
        Ok(self.batch)
    }

    /// The number of finished positions; a fault when `target` is empty or
    /// shorter than that, or the memory is freed.
    fn finish(&self, buffer: &Buffer, target: &mut [isize]) -> (r: Result<usize, Status>)
        ensures
            final(target)@ == old(target)@,
            old(target)@.len() == 0 || buffer.capacity == 0 || old(target)@.len() < self.finish
                ==> r == Err::<usize, Status>(Status::Fault),
            !(old(target)@.len() == 0 || buffer.capacity == 0 || old(target)@.len() < self.finish)
                ==> r == Ok::<usize, Status>(self.finish),
    {
        if target.len() == 0 || buffer.capacity() == 0 {
            return Err(Status::Fault);
        }
        let count = self.finish;
        if target.len() < count {
            return Err(Status::Fault);
        }
        Ok(count)
    }

    fn poll(&self) -> (r: Status)
        ensures
            r == self.status,
    {
        self.status
    }

    /// Runs the batch; nothing to run is no error.
    fn flush(&mut self, buffer: &Buffer) -> (r: Result<usize, Status>)
        ensures
            old(self).batch == 0 ==> r == Ok::<usize, Status>(0) && *final(self) == *old(self),
            old(self).batch > 0 && buffer.capacity == 0 ==> r == Err::<usize, Status>(Status::Fault)
                && *final(self) == *old(self),
            old(self).batch > 0 && buffer.capacity > 0 ==> r == Ok::<usize, Status>(old(self).batch)
                && *final(self) == ran(*old(self)),
    {
        if self.batch == 0 {
            return Ok(0);
        }
        self.execute(buffer)
    }
}

} // verus!
