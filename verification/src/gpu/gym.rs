//! The accelerator of the self-play gym: samples are gathered into a batch
//! of 4096 that is scored and counted each time it fills.
use vstd::prelude::*;
use super::batch::{Batch, Batchable, STRIDE, pulled_from, pushed_onto, written_into};
use super::buffer::Buffer;
use super::device::Device;
use super::evaluator::{Evaluable, Evaluator, evaluator_flushed, material, score_of};
use super::kernel::{Dispatchable, Kernel, kernel_flushed, ran};
use super::sample::Sample;
use super::status::Status;

verus! {

/// Accelerating the scoring of gym positions.
pub trait Accelerable {
    /// The state the accelerator needs.
    spec fn held(&self) -> bool;

    /// Adds `sample` to the batch, scoring the batch when it fills.
    fn submit(&mut self, sample: &Sample) -> Result<(), Status>
        requires
            old(self).held(),
    ;

    /// Scores and empties the batch; returns how many it held.
    fn process(&mut self) -> Result<usize, Status>
        requires
            old(self).held(),
    ;

    /// The score of a position given as its grid bytes.
    fn evaluate(&mut self, position: &[u8]) -> Result<i32, Status>
        requires
            old(self).held(),
    ;

    /// What `flush` leaves: `after` and the result `r`, from `self`.
    spec fn flushed(&self, after: &Self, r: Result<usize, Status>) -> bool;

    /// Scores and empties the batch.
    fn flush(&mut self) -> (r: Result<usize, Status>)
        requires
            old(self).held(),
        ensures
            old(self).flushed(final(self), r),
    ;
}

/// A gym after scoring its batch: it stays well formed and returns the
/// batch's size; an empty batch changes nothing; otherwise the samples are
/// counted, the batch empties and the kernel and the activity stay.
pub open spec fn processed(g: Gym, after: Gym, r: Result<usize, Status>) -> bool {
    &&& after.wf()
    &&& r == Ok::<usize, Status>(g.batch.count)
    &&& g.batch.count == 0 ==> after == g
    &&& g.batch.count > 0 ==> after.count == g.count + g.batch.count && after.batch.count == 0
        && after.batch.samples@.len() == 0 && after.kernel == g.kernel && after.active == g.active
}

/// The gym accelerator.
#[derive(Debug)]
pub struct Gym {
    /// The device.
    pub device: Device,
    /// The scorer.
    pub evaluator: Evaluator,
    /// The leaf kernel.
    pub kernel: Kernel,
    /// Device memory of the kernel.
    pub buffer: Buffer,
    /// The batch being gathered.
    pub batch: Batch,
    /// Ready.
    pub status: Status,
    /// Nonzero while in use.
    pub active: u8,
    /// Nonzero when host and device share memory.
    pub shared: u8,
    /// Padding.
    pub pad: [u8; 5],
    /// Search depth of the gym.
    pub depth: u64,
    /// Samples scored so far.
    pub count: u64,
    /// Samples per batch.
    pub limit: u64,
    /// Padding.
    pub extra: [u8; 32],
}

/// Samples per batch.
pub const LIMIT: usize = 4096;

/// The grid of a sample loaded from `position`: its first bytes, up to 90,
/// over an empty board.
pub open spec fn grid_of(position: Seq<u8>) -> Seq<u8> {
    Seq::new(90, |i: int| if i < position.len() { position[i] } else { 14u8 })
}

impl Gym {
    /// The parts are consistent: the scorer is in use, the batch takes 4096
    /// samples in held memory.
    pub open spec fn wf(&self) -> bool {
        &&& self.device.guard.wf()
        &&& self.evaluator.wf()
        &&& self.evaluator.active
        &&& self.buffer.wf()
        &&& self.batch.wf()
        &&& self.batch.capacity == LIMIT
        &&& self.batch.buffer.capacity > 0
        &&& self.limit == LIMIT
    }

    /// An accelerator on `device`, scoring on `engine`: a 4096-sample
    /// batch and kernel, depth 12, nothing scored yet; the first error of
    /// setting up the parts otherwise.
    pub fn new(device: Device, engine: Device) -> (r: Result<Self, Status>)
        requires
            device.guard.wf(),
            engine.guard.wf(),
        ensures
            match r {
                Ok(g) => {
                    &&& g.wf()
                    &&& g.active == 1 && g.depth == 12 && g.count == 0
                    &&& g.batch.count == 0
                    &&& g.kernel.limit == LIMIT && g.kernel.stride == STRIDE && g.kernel.threads
                        == 256 && g.kernel.batch == 0
                    &&& g.status == Status::Ready
                    &&& g.shared == (if device.unified {
                        1u8
                    } else {
                        0u8
                    })
                    &&& g.device.backend == device.backend
                },
                Err(e) => e == Status::Fault || e == Status::Exhausted,
            },
    {
        let evaluator = match Evaluator::new(engine) {
            Ok(e) => e,
            Err(e) => {
                return Err(e);
            },
        };
        let unified = device.unified;
        let kernel = match Kernel::init(LIMIT, STRIDE, 256, unified) {
            Ok(k) => k,
            Err(e) => {
                return Err(e);
            },
        };
        let limit: u64 = 4096;
        let mut device = device;
        let buffer = match device.allocate(LIMIT * STRIDE) {
            Ok(b) => b,
            Err(e) => {
                return Err(e);
            },
        };
        let batch = match Batch::allocate(&mut device, LIMIT) {
            Ok(b) => b,
            Err(e) => {
                return Err(e);
            },
        };
        proof {
            assert(batch.buffer.capacity >= LIMIT * STRIDE);
        }
        Ok(
            Self {
                device,
                evaluator,
                kernel,
                buffer,
                batch,
                status: Status::Ready,
                active: 1,
                shared: if unified {
                    1
                } else {
                    0
                },
                pad: [0; 5],
                depth: 12,
                count: 0,
                limit,
                extra: [0; 32],
            },
        )
    }

    /// Adds `sample` to the batch: when the batch is full it is scored and
    /// emptied first, and when the sample fills it, it is scored and emptied
    /// after. A fault, changing nothing, when the accelerator is not in use
    /// or the sample's side is not 0 or 1.
    pub fn submit(&mut self, sample: &Sample) -> (r: Result<(), Status>)
        requires
            old(self).wf(),
            old(self).count + LIMIT <= u64::MAX,
        ensures
            final(self).wf(),
            old(self).active == 0 || sample.side >= 2 ==> r == Err::<(), Status>(Status::Fault)
                && *final(self) == *old(self),
            old(self).active != 0 && sample.side < 2 ==> r is Ok && ({
                let b = old(self).batch.count;
                if b >= LIMIT {
                    final(self).count == old(self).count + b && final(self).batch.samples@ == seq![
                        *sample,
                    ]
                } else if b + 1 >= LIMIT {
                    final(self).count == old(self).count + b + 1 && final(self).batch.samples@.len() == 0
                } else {
                    final(self).count == old(self).count && final(self).batch.samples@ == old(self).batch.samples@.push(*sample)
                }
            }),
    {
        if self.active == 0 || !sample.valid() {
            return Err(Status::Fault);
        }
        if self.batch.full() {
            match self.process() {
                Ok(_) => {},
                Err(e) => {
                    return Err(e);
                },
            }
        }
        match self.batch.push(sample) {
            Ok(()) => {},
            Err(e) => {
                return Err(e);
            },
        }
        if self.batch.count() >= (self.limit as usize) {
            match self.process() {
                Ok(_) => {},
                Err(e) => {
                    return Err(e);
                },
            }
        }
        Ok(())
    }

    /// Scores the batch and empties it, counting its samples; returns how
    /// many it held.
    pub fn process(&mut self) -> (r: Result<usize, Status>)
        requires
            old(self).wf(),
            old(self).count + old(self).batch.count <= u64::MAX,
        ensures
            final(self).wf(),
            r == Ok::<usize, Status>(old(self).batch.count),
            old(self).batch.count == 0 ==> *final(self) == *old(self),
            old(self).batch.count > 0 ==> final(self).count == old(self).count + old(self).batch.count && final(self).batch.count == 0 && final(self).batch.samples@.len() == 0
                && final(self).kernel == old(self).kernel && final(self).active == old(self).active,
    {
        if self.batch.empty() {
            return Ok(0);
        }
        let processed = match self.evaluator.flush(&mut self.batch) {
            Ok(n) => n,
            Err(e) => {
                return Err(e);
            },
        };
        self.count = self.count + processed as u64;
        self.batch.clear();
        Ok(processed)
    }

    /// The score of the position whose grid starts with `position` (at most
    /// its first 90 bytes count, the rest of the board is empty), for Red to
    /// move; a fault for no bytes.
    pub fn evaluate(&mut self, position: &[u8]) -> (r: Result<i32, Status>)
        requires
            old(self).wf(),
        ensures
            *final(self) == *old(self),
            position@.len() == 0 ==> r == Err::<i32, Status>(Status::Fault),
            position@.len() > 0 ==> r == Ok::<i32, Status>(
                material(grid_of(position@), 0, 90) as i32,
            ),
    {
        if position.len() == 0 {
            return Err(Status::Fault);
        }
        let mut sample = Sample::new();
        let len = if position.len() < 90 {
            position.len()
        } else {
            90
        };
        let mut i: usize = 0;
        while i < len
            invariant
                i <= len <= 90,
                len <= position@.len(),
                sample.side == 0,
                forall|k: int| 0 <= k < i ==> sample.grid[k] == position@[k],
                forall|k: int| i <= k < 90 ==> sample.grid[k] == 14,
            decreases len - i,
        {
            sample.grid[i] = position[i];
            i += 1;
        }
        assert(sample.grid@ =~= grid_of(position@));
        self.evaluator.eval(&sample)
    }

    /// Runs the kernel's batch; a fault when not in use.
    pub fn execute(&mut self) -> (r: Result<usize, Status>)
        ensures
            old(self).active == 0 ==> r == Err::<usize, Status>(Status::Fault) && *final(self)
                == *old(self),
            old(self).active != 0 && (old(self).buffer.capacity == 0 || old(self).kernel.batch == 0)
                ==> r == Err::<usize, Status>(Status::Fault) && *final(self) == *old(self),
            old(self).active != 0 && old(self).buffer.capacity > 0 && old(self).kernel.batch > 0
                ==> r == Ok::<usize, Status>(old(self).kernel.batch) && *final(self) == (Gym {
                kernel: ran(old(self).kernel),
                ..*old(self)
            }),
    {
        if self.active == 0 {
            return Err(Status::Fault);
        }
        self.kernel.execute(&self.buffer)
    }

    /// Back to ready with nothing scored, an empty batch and a reset kernel.
    pub fn reset(&mut self) -> (r: Result<(), Status>)
        requires
            old(self).wf(),
        ensures
            r is Ok,
            final(self).wf(),
            final(self).status == Status::Ready && final(self).count == 0,
            final(self).batch.count == 0,
            final(self).kernel.batch == 0 && final(self).kernel.dispatch == 0
                && final(self).kernel.finish == 0,
    {
        self.status = Status::Ready;
        self.count = 0;
        self.batch.clear();
        self.kernel.reset();
        Ok(())
    }

    /// The device.
    pub fn device(&self) -> (r: &Device)
        ensures
            *r == self.device,
    {
        &self.device
    }

    /// The scorer.
    pub fn evaluator(&self) -> (r: &Evaluator)
        ensures
            *r == self.evaluator,
    {
        &self.evaluator
    }

    /// The leaf kernel.
    pub fn kernel(&self) -> (r: &Kernel)
        ensures
            *r == self.kernel,
    {
        &self.kernel
    }

    /// Device memory of the kernel.
    pub fn buffer(&self) -> (r: &Buffer)
        ensures
            *r == self.buffer,
    {
        &self.buffer
    }

    /// The batch being gathered.
    pub fn batch(&self) -> (r: &Batch)
        ensures
            *r == self.batch,
    {
        &self.batch
    }

    /// The status.
    pub fn status(&self) -> (r: Status)
        ensures
            r == self.status,
    {
        self.status
    }

    /// Whether in use.
    pub fn active(&self) -> (r: bool)
        ensures
            r == (self.active != 0),
    {
        self.active != 0
    }

    /// Whether host and device share memory.
    pub fn shared(&self) -> (r: bool)
        ensures
            r == (self.shared != 0),
    {
        self.shared != 0
    }

    /// Samples scored so far.
    pub fn count(&self) -> (r: usize)
        ensures
            r == self.count as usize,
    {
        self.count as usize
    }

    /// Search depth.
    pub fn depth(&self) -> (r: usize)
        ensures
            r == self.depth as usize,
    {
        self.depth as usize
    }

    /// Samples per batch.
    pub fn limit(&self) -> (r: usize)
        ensures
            r == self.limit as usize,
    {
        self.limit as usize
    }
}

impl Accelerable for Gym {
    open spec fn held(&self) -> bool {
        self.wf() && self.count + LIMIT <= u64::MAX
    }

    /// Flushing is processing.
    open spec fn flushed(&self, after: &Self, r: Result<usize, Status>) -> bool {
        processed(*self, *after, r)
    }

    fn submit(&mut self, sample: &Sample) -> (r: Result<(), Status>)
        ensures
            final(self).wf(),
            (r is Ok) == (old(self).active != 0 && sample.side < 2),
    {
        Gym::submit(self, sample)
    }

    fn process(&mut self) -> (r: Result<usize, Status>)
        ensures
            final(self).wf(),
            r == Ok::<usize, Status>(old(self).batch.count),
    {
        Gym::process(self)
    }

    fn evaluate(&mut self, position: &[u8]) -> (r: Result<i32, Status>)
        ensures
            position@.len() > 0 ==> r == Ok::<i32, Status>(
                material(grid_of(position@), 0, 90) as i32,
            ),
    {
        Gym::evaluate(self, position)
    }

    /// Scores and empties the batch, as `process` does.
    fn flush(&mut self) -> (r: Result<usize, Status>) {
        Gym::process(self)
    }
}

impl Evaluable for Gym {
    open spec fn held(&self) -> bool {
        self.wf() && self.count + LIMIT <= u64::MAX
    }

    /// The scorer flushes the batch as a scorer does; the rest of the gym
    /// stays.
    open spec fn flushed(&self, batch: &Batch, after: &Self, batch_after: &Batch, r: Result<usize, Status>) -> bool {
        &&& evaluator_flushed(self.evaluator, *batch, after.evaluator, *batch_after, r)
        &&& *after == (Gym { evaluator: after.evaluator, ..*self })
    }

    fn submit(&mut self, sample: &Sample) -> (r: Result<(), Status>)
        ensures
            (r is Ok) == (old(self).active != 0 && sample.side < 2),
    {
        Gym::submit(self, sample)
    }

    fn flush(&mut self, batch: &mut Batch) -> (r: Result<usize, Status>) {
        Evaluable::flush(&mut self.evaluator, batch)
    }

    fn eval(&self, sample: &Sample) -> (r: Result<i32, Status>)
        ensures
            self.evaluator.active ==> r == Ok::<i32, Status>(score_of(*sample) as i32),
    {
        self.evaluator.eval(sample)
    }
}

impl Batchable for Gym {
    open spec fn held(&self) -> bool {
        self.batch.wf()
    }

    fn allocate(device: &mut Device, capacity: usize) -> (r: Result<Batch, Status>)
        ensures
            final(device).guard.wf(),
            capacity == 0 || capacity > super::batch::MAXIMUM ==> r == Err::<Batch, Status>(
                Status::Fault,
            ),
            r is Ok ==> r->Ok_0.wf() && r->Ok_0.count == 0 && r->Ok_0.capacity == capacity,
    {
        Batch::allocate(device, capacity)
    }

    fn push(&mut self, sample: &Sample) -> (r: Result<(), Status>)
        ensures
            pushed_onto(old(self).batch, *sample, final(self).batch, r),
            *final(self) == (Gym { batch: final(self).batch, ..*old(self) }),
    {
        self.batch.push(sample)
    }

    fn pull(&self, index: usize) -> (r: Result<Sample, Status>)
        ensures
            pulled_from(self.batch, index, r),
    {
        self.batch.pull(index)
    }

    fn write(&mut self, index: usize, sample: &Sample) -> (r: Result<(), Status>)
        ensures
            written_into(old(self).batch, index, *sample, final(self).batch, r),
            *final(self) == (Gym { batch: final(self).batch, ..*old(self) }),
    {
        self.batch.write(index, sample)
    }

    fn full(&self) -> (r: bool)
        ensures
            r == (self.batch.count >= self.batch.capacity),
    {
        self.batch.full()
    }

    fn empty(&self) -> (r: bool)
        ensures
            r == (self.batch.count == 0),
    {
        self.batch.empty()
    }

    fn clear(&mut self)
        ensures
            final(self).batch.count == 0,
    {
        self.batch.clear()
    }
}

impl Dispatchable for Gym {
    /// The kernel flushes as a kernel does; the rest of the gym stays.
    open spec fn flushed(&self, buffer: &Buffer, after: &Self, r: Result<usize, Status>) -> bool {
        &&& kernel_flushed(self.kernel, *buffer, after.kernel, r)
        &&& *after == (Gym { kernel: after.kernel, ..*self })
    }

    fn dispatch(&mut self, buffer: &Buffer, count: usize) -> (r: Result<usize, Status>)
        ensures
            count == 0 ==> r == Err::<usize, Status>(Status::Fault) && final(self).kernel == old(
                self,
            ).kernel,
            count > 0 && old(self).kernel.batch + count > old(self).kernel.limit ==> r == Err::<
                usize,
                Status,
            >(Status::Full) && final(self).kernel == old(self).kernel,
            count > 0 && old(self).kernel.batch + count < old(self).kernel.limit ==> r == Ok::<
                usize,
                Status,
            >((old(self).kernel.batch + count) as usize),
    {
        self.kernel.dispatch(buffer, count)
    }

    fn finish(&self, buffer: &Buffer, target: &mut [isize]) -> (r: Result<usize, Status>)
        ensures
            final(target)@ == old(target)@,
            old(target)@.len() == 0 || buffer.capacity == 0 || old(target)@.len() < self.kernel.finish
                ==> r == Err::<usize, Status>(Status::Fault),
            !(old(target)@.len() == 0 || buffer.capacity == 0 || old(target)@.len()
                < self.kernel.finish) ==> r == Ok::<usize, Status>(self.kernel.finish),
    {
        self.kernel.finish(buffer, target)
    }

    fn poll(&self) -> (r: Status)
        ensures
            r == self.kernel.status,
    {
        self.kernel.poll()
    }

    fn flush(&mut self, buffer: &Buffer) -> (r: Result<usize, Status>)
    {
        Dispatchable::flush(&mut self.kernel, buffer)
    }
}

} // verus!
