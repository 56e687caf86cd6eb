//! Two batches used in turn: the host fills the active one while the GPU
//! scores the other, and a swap exchanges their roles.
use vstd::prelude::*;
use super::batch::Batch;
use super::device::Device;
use super::evaluator::Evaluator;
use super::sample::Sample;
use super::status::Status;

verus! {

/// A double-buffered queue of samples.
pub trait Queueable {
    /// A queue of two batches of `capacity` samples each.
    fn allocate(device: &mut Device, capacity: usize) -> Result<Self, Status> where Self: Sized;

    /// Appends `sample` to the batch the host fills.
    fn push(&mut self, sample: &Sample) -> Result<(), Status>;

    /// Exchanges the roles of the two batches.
    fn swap(&mut self);

    /// Whether the batch the host fills is at capacity.
    fn full(&self) -> bool;

    /// Empties the batch the host fills.
    fn clear(&mut self);
}

/// Two batches used in turn.
#[derive(Debug)]
pub struct RingBuffer {
    /// The first batch.
    pub batch_first: Batch,
    /// The second batch.
    pub batch_second: Batch,
    /// Which batch the host fills: 0 the first, 1 the second.
    pub active: usize,
    /// Samples per batch.
    pub capacity: usize,
    /// Samples pushed since the last swap.
    pub count: usize,
    /// The batch for the GPU awaits scoring.
    pub ready: bool,
    /// The queue is closed.
    pub closed: bool,
    /// Padding.
    pub pad: [u8; 38],
}

/// The queue after a swap: the other batch is filled, nothing is pushed
/// since, and the batch for the GPU awaits scoring.
pub open spec fn swapped(q: RingBuffer) -> RingBuffer {
    RingBuffer { active: (1 - q.active) as usize, count: 0, ready: true, ..q }
}

/// Swapping twice gives the host its batch back and the GPU its own.
pub proof fn lemma_swap_twice(q: RingBuffer)
    requires
        q.wf(),
    ensures
        swapped(q).wf(),
        swapped(swapped(q)).filling() == q.filling(),
        swapped(swapped(q)).draining() == q.draining(),
        swapped(swapped(q)).active == q.active,
{
}

impl RingBuffer {
    /// The active index is 0 or 1 and both batches are consistent.
    pub open spec fn wf(&self) -> bool {
        &&& self.active <= 1
        &&& self.batch_first.wf()
        &&& self.batch_second.wf()
    }

    /// The batch the host fills.
    pub open spec fn filling(&self) -> Batch {
        if self.active == 0 {
            self.batch_first
        } else {
            self.batch_second
        }
    }

    /// The batch the GPU scores.
    pub open spec fn draining(&self) -> Batch {
        if self.active == 0 {
            self.batch_second
        } else {
            self.batch_first
        }
    }

    /// Two empty batches of `capacity` samples from `device`, the first
    /// filled first; the first error of either allocation otherwise.
    pub fn allocate(device: &mut Device, capacity: usize) -> (r: Result<Self, Status>)
        requires
            old(device).guard.wf(),
        ensures
            final(device).guard.wf(),
            capacity == 0 || capacity > super::batch::MAXIMUM ==> r == Err::<Self, Status>(
                Status::Fault,
            ),
            match r {
                Ok(q) => q.wf() && q.active == 0 && q.capacity == capacity && q.count == 0 && !q.ready
                    && !q.closed && q.batch_first.count == 0 && q.batch_second.count == 0
                    && q.batch_first.capacity == capacity && q.batch_second.capacity == capacity,
                Err(e) => e == Status::Fault || e == Status::Exhausted,
            },
    {
        let batch_first = match Batch::allocate(device, capacity) {
            Ok(b) => b,
            Err(e) => {
                return Err(e);
            },
        };
        let batch_second = match Batch::allocate(device, capacity) {
            Ok(b) => b,
            Err(e) => {
                return Err(e);
            },
        };
        Ok(
            Self {
                batch_first,
                batch_second,
                active: 0,
                capacity,
                count: 0,
                ready: false,
                closed: false,
                pad: [0; 38],
            },
        )
    }

    /// Exchanges the roles of the batches; nothing pushed since, the other
    /// batch awaits scoring.
    pub fn swap(&mut self)
        requires
            old(self).wf(),
        ensures
            final(self).wf(),
            *final(self) == swapped(*old(self)),
            final(self).filling() == old(self).draining(),
            final(self).draining() == old(self).filling(),
    {
        self.active = 1 - self.active;
        self.count = 0;
        self.ready = true;
    }

    /// The batch the host fills.
    pub fn active_batch_mut(&mut self) -> (r: &mut Batch)
        ensures
            *r == old(self).filling(),
            old(self).active == 0 ==> *final(self) == (RingBuffer { batch_first: *final(r), ..*old(self) }),
            old(self).active != 0 ==> *final(self) == (RingBuffer { batch_second: *final(r), ..*old(self) }),
    {
        if self.active == 0 {
            &mut self.batch_first
        } else {
            &mut self.batch_second
        }
    }

    /// The batch the GPU scores.
    pub fn passive_batch_mut(&mut self) -> (r: &mut Batch)
        ensures
            *r == old(self).draining(),
            old(self).active == 0 ==> *final(self) == (RingBuffer { batch_second: *final(r), ..*old(self) }),
            old(self).active != 0 ==> *final(self) == (RingBuffer { batch_first: *final(r), ..*old(self) }),
    {
        if self.active == 0 {
            &mut self.batch_second
        } else {
            &mut self.batch_first
        }
    }

    /// Appends `sample` to the batch the host fills and counts it.
    pub fn push(&mut self, sample: &Sample) -> (r: Result<(), Status>)
        requires
            old(self).wf(),
        ensures
            final(self).wf(),
            final(self).active == old(self).active,
            final(self).draining() == old(self).draining(),
            r is Err ==> *final(self) == *old(self),
            r is Ok ==> final(self).count == old(self).count.wrapping_add(1)
                && final(self).filling().samples@ == old(self).filling().samples@.push(*sample),
            r is Ok <==> old(self).filling().count < old(self).filling().capacity
                && old(self).filling().buffer.capacity > 0,
    {
        let batch = self.active_batch_mut();
        match batch.push(sample) {
            Ok(()) => {},
            Err(e) => {
                return Err(e);
            },
        }
        self.count = self.count.wrapping_add(1);
        Ok(())
    }

    /// Scores the samples pushed since the last swap in the batch for the
    /// GPU, given `scores`, the GPU's answer for them (`None` when it gave
    /// none); returns how many. Nothing pushed is no work.
    pub fn flush_gpu(&mut self, evaluator: &Evaluator, scores: Option<&[i32]>) -> (r: Result<
        usize,
        Status,
    >)
        requires
            old(self).wf(),
        ensures
            final(self).wf(),
            final(self).active == old(self).active && final(self).count == old(self).count,
            final(self).filling() == old(self).filling(),
            old(self).count == 0 ==> r == Ok::<usize, Status>(0) && *final(self) == *old(self),
            old(self).count > 0 ==> match r {
                Ok(n) => n == old(self).count && !final(self).ready && evaluator.executed(
                    old(self).draining(),
                    final(self).draining(),
                    old(self).count,
                    scores,
                    Ok(()),
                ),
                Err(e) => final(self).ready == old(self).ready && evaluator.executed(
                    old(self).draining(),
                    final(self).draining(),
                    old(self).count,
                    scores,
                    Err(e),
                ),
            },
    {
        let count = self.count;
        if count == 0 {
            return Ok(0);
        }
        let batch = self.passive_batch_mut();
        match evaluator.execute(batch, count, scores) {
            Ok(()) => {},
            Err(e) => {
                return Err(e);
            },
        }
        self.ready = false;
        Ok(count)
    }

    /// Whether the batch for the GPU awaits scoring.
    pub fn is_ready(&self) -> (r: bool)
        ensures
            r == self.ready,
    {
        self.ready
    }

    /// Closes the queue.
    pub fn close(&mut self)
        ensures
            *final(self) == (RingBuffer { closed: true, ..*old(self) }),
    {
        self.closed = true;
    }

    /// Whether the queue is closed.
    pub fn is_closed(&self) -> (r: bool)
        ensures
            r == self.closed,
    {
        self.closed
    }
}

} // verus!
