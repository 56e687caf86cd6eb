//! Scoring batches of samples: on the GPU when a context is up and the batch
//! is large enough, by material count on the CPU otherwise or when the GPU
//! gives no answer.
use vstd::prelude::*;
use crate::book::loader::{bytes32, lemma_b32, push32};
use super::batch::Batch;
use super::buffer::{Buffer, frame, pushed};
use super::device::Device;
use super::guard::reserved;
use super::sample::Sample;
use super::status::Status;

verus! {

/// Scoring samples.
pub trait Evaluable {
    /// The state scoring needs.
    spec fn held(&self) -> bool;

    /// Scores `sample` and queues the score.
    fn submit(&mut self, sample: &Sample) -> Result<(), Status>
        requires
            old(self).held(),
    ;

    /// What `flush` leaves: the scorer `after`, the batch `batch_after` and
    /// the result `r`, from `self` and `batch`.
    spec fn flushed(&self, batch: &Batch, after: &Self, batch_after: &Batch, r: Result<usize, Status>) -> bool;

    /// Scores every sample of `batch`; returns how many it holds.
    fn flush(&mut self, batch: &mut Batch) -> (r: Result<usize, Status>)
        requires
            old(self).held(),
            old(batch).wf(),
        ensures
            old(self).flushed(old(batch), final(self), final(batch), r),
    ;

    /// The score of `sample`.
    fn eval(&self, sample: &Sample) -> Result<i32, Status>;
}

/// The batch scorer.
#[derive(Debug)]
pub struct Evaluator {
    /// The device it runs on.
    pub device: Device,
    /// Device memory for scores.
    pub buffer: Buffer,
    /// Best batch size.
    pub batch: usize,
    /// Centipawn scale.
    pub scale: i32,
    /// Ready on a GPU, active on the CPU.
    pub status: Status,
    /// The scorer is in use.
    pub active: bool,
    /// The device is a GPU.
    pub hardware: bool,
    /// Padding.
    pub pad: [u8; 49],
}

/// Material value of each piece kind, by the piece codes of the board
/// (`code % 7`): king 1000, advisor 20, elephant 20, horse 40, chariot 90,
/// cannon 45, pawn 10.
pub open spec fn value_of(kind: int) -> int {
    if kind == 0 {
        1000
    } else if kind == 1 || kind == 2 {
        20
    } else if kind == 3 {
        40
    } else if kind == 4 {
        90
    } else if kind == 5 {
        45
    } else {
        10
    }
}

/// What the piece code `piece` adds for `side`: its value when `side` owns
/// it, minus its value otherwise, nothing for an empty square.
pub open spec fn term(piece: u8, side: u8) -> int {
    if piece < 14 {
        if piece / 7 == side {
            value_of((piece % 7) as int)
        } else {
            -value_of((piece % 7) as int)
        }
    } else {
        0
    }
}

/// The material balance for `side` over the first `n` squares of `grid`.
pub open spec fn material(grid: Seq<u8>, side: u8, n: int) -> int
    decreases n,
{
    if n <= 0 {
        0
    } else {
        material(grid, side, n - 1) + term(grid[n - 1], side)
    }
}

/// The material balance is relative to the side to move: Black's balance
/// is the opposite of Red's.
pub proof fn lemma_material_perspective(grid: Seq<u8>, n: int)
    ensures
        material(grid, 1, n) == -material(grid, 0, n),
    decreases n,
{
    if n > 0 {
        lemma_material_perspective(grid, n - 1);
    }
}

/// The score of a sample: its material balance for the side to move.
pub open spec fn score_of(s: Sample) -> int {
    material(s.grid@, s.side, 90)
}

/// `s` with its material score written back.
pub open spec fn rescored(s: Sample) -> Sample {
    Sample { score: score_of(s) as i32, ..s }
}

/// `samples` with the first `n` rescored.
pub open spec fn rescored_upto(samples: Seq<Sample>, n: int) -> Seq<Sample> {
    Seq::new(samples.len(), |i: int| if i < n { rescored(samples[i]) } else { samples[i] })
}

/// `samples` with the first `n` scores taken from `scores`.
pub open spec fn stamped(samples: Seq<Sample>, scores: Seq<i32>, n: int) -> Seq<Sample> {
    Seq::new(
        samples.len(),
        |i: int| if i < n { Sample { score: scores[i], ..samples[i] } } else { samples[i] },
    )
}

/// The value of a piece kind.
fn value(kind: u8) -> (r: i32)
    ensures
        r == value_of(kind as int),
{
    match kind {
        0 => 1000,
        1 => 20,
        2 => 20,
        3 => 40,
        4 => 90,
        5 => 45,
        _ => 10,
    }
}

impl Evaluator {
    /// The device's accounting and the score memory are consistent.
    pub open spec fn wf(&self) -> bool {
        &&& self.device.guard.wf()
        &&& self.buffer.wf()
    }

    /// Whether `count` samples go to the GPU: a GPU context is up and the
    /// batch has 512 to 16384 samples.
    pub open spec fn routed(&self, count: usize) -> bool {
        &&& self.device.adapter is Some
        &&& 512 <= count <= 16384
    }

    /// A scorer on `device`, with 64 KiB of its memory for scores: ready on
    /// a GPU, active on the CPU; what the device refuses is the error.
    pub fn new(device: Device) -> (r: Result<Self, Status>)
        requires
            device.guard.wf(),
        ensures
            match r {
                Ok(e) => {
                    &&& e.wf()
                    &&& e.device.backend == device.backend && e.device.adapter == device.adapter
                    &&& e.device.guard == reserved(device.guard, 65536).0
                    &&& e.buffer.capacity >= 65536 && e.buffer.bytes == 65536
                    &&& e.buffer.pending().len() == 0
                    &&& e.batch == 16384 && e.scale == 400 && e.active
                    &&& e.hardware == (device.backend != super::backend::Backend::Cpu)
                    &&& e.status == (if e.hardware {
                        Status::Ready
                    } else {
                        Status::Active
                    })
                },
                Err(e) => e == Status::Fault || e == Status::Exhausted,
            },
    {
        let mut device = device;
        let hardware = device.backend().valid();
        let buffer = match device.allocate(64 * 1024) {
            Ok(b) => b,
            Err(e) => {
                return Err(e);
            },
        };
        let status = if hardware {
            Status::Ready
        } else {
            Status::Active
        };
        Ok(
            Self {
                device,
                buffer,
                batch: 16384,
                scale: 400,
                status,
                active: true,
                hardware,
                pad: [0; 49],
            },
        )
    }

    /// The material balance of `sample` for its side to move; a fault when
    /// the scorer is not in use.
    pub fn compute(&self, sample: &Sample) -> (r: Result<i32, Status>)
        ensures
            !self.active ==> r == Err::<i32, Status>(Status::Fault),
            self.active ==> r == Ok::<i32, Status>(score_of(*sample) as i32) && -90000 <= score_of(
                *sample,
            ) <= 90000,
    {
        if !self.active {
            return Err(Status::Fault);
        }
        let grid = sample.grid();
        let side = sample.side();
        let mut score: i32 = 0;
        let mut idx: usize = 0;
        while idx < 90
            invariant
                idx <= 90,
                *grid == sample.grid,
                side == sample.side,
                score == material(grid@, side, idx as int),
                -1000 * idx <= score <= 1000 * idx,
            decreases 90 - idx,
        {
            let piece = grid[idx];
            if piece < 14 {
                let val = value(piece % 7);
                let owner = piece / 7;
                if owner == side {
                    score = score + val;
                } else {
                    score = score - val;
                }
            }
            idx += 1;
        }
        Ok(score)
    }

    /// Whether `count` samples go to the GPU.
    pub fn plan(&self, count: usize) -> (r: bool)
        ensures
            r == self.routed(count),
    {
        count >= 512 && count <= 16384 && self.device.adapter.is_some()
    }

    /// Scores the first `count` samples of `batch`, given `scores`, what the
    /// GPU answered for them when they were routed there (`None` when it
    /// gave no answer). Nothing to score is done at once; samples not routed
    /// to the GPU, or without a full answer, are scored on the CPU; routed
    /// samples whose memory is freed are a fault; otherwise the answer is
    /// written back.
    pub fn execute(&self, batch: &mut Batch, count: usize, scores: Option<&[i32]>) -> (r: Result<
        (),
        Status,
    >)
        requires
            old(batch).wf(),
        ensures
            final(batch).wf(),
            self.executed(*old(batch), *final(batch), count, scores, r),
    {
        if count == 0 {
            return Ok(());
        }
        if !self.plan(count) {
            return self.fallback(batch, count);
        }
        if batch.buffer.capacity == 0 {
            return Err(Status::Fault);
        }
        match scores {
            Some(s) => {
                if s.len() >= count {
                    self.absorb(batch, count, s);
                    Ok(())
                } else {
                    self.fallback(batch, count)
                }
            },
            None => self.fallback(batch, count),
        }
    }

    /// `after` and `r` are what scoring the first `count` samples of
    /// `before` with the GPU's answer `scores` gives: nothing to score is
    /// done at once; samples routed to the GPU whose memory is freed are a
    /// fault; a full answer for routed samples is written back; everything
    /// else is scored on the CPU. Only the samples change.
    pub open spec fn executed(
        &self,
        before: Batch,
        after: Batch,
        count: usize,
        scores: Option<&[i32]>,
        r: Result<(), Status>,
    ) -> bool {
        let n = if count < before.count {
            count as int
        } else {
            before.count as int
        };
        let answered = scores is Some && scores.unwrap()@.len() >= count;
        &&& after == (Batch { samples: after.samples, ..before })
        &&& if count == 0 {
            r is Ok && after.samples@ == before.samples@
        } else if self.routed(count) && before.buffer.capacity == 0 {
            r == Err::<(), Status>(Status::Fault) && after.samples@ == before.samples@
        } else if self.routed(count) && answered {
            r is Ok && after.samples@ == stamped(before.samples@, scores.unwrap()@, n)
        } else {
            self.fell_back(before, after, count, r)
        }
    }

    /// `after` and `r` are what scoring the first `count` samples of
    /// `before` on the CPU gives: only the samples change; with none to
    /// score (or the memory freed) nothing does; when the scorer is not in
    /// use it is a fault; otherwise each is given its material score.
    pub open spec fn fell_back(&self, before: Batch, after: Batch, count: usize, r: Result<(), Status>) -> bool {
        let n = if count < before.count {
            count as int
        } else {
            before.count as int
        };
        &&& after == (Batch { samples: after.samples, ..before })
        &&& if before.buffer.capacity == 0 || n == 0 {
            r is Ok && after.samples@ == before.samples@
        } else if !self.active {
            r == Err::<(), Status>(Status::Fault) && after.samples@ == before.samples@
        } else {
            r is Ok && after.samples@ == rescored_upto(before.samples@, n)
        }
    }

    /// Writes the first `count` of `scores` into `batch`.
    fn absorb(&self, batch: &mut Batch, count: usize, scores: &[i32])
        requires
            old(batch).wf(),
            old(batch).buffer.capacity > 0,
            scores@.len() >= count,
        ensures
            final(batch).wf(),
            *final(batch) == (Batch { samples: final(batch).samples, ..*old(batch) }),
            final(batch).samples@ == stamped(
                old(batch).samples@,
                scores@,
                if count < old(batch).count {
                    count as int
                } else {
                    old(batch).count as int
                },
            ),
    {
        let ghost orig = *batch;
        let mut i: usize = 0;
        while i < count
            invariant
                i <= count,
                scores@.len() >= count,
                batch.wf(),
                batch.buffer.capacity > 0,
                *batch == (Batch { samples: batch.samples, ..orig }),
                batch.samples@ == stamped(
                    orig.samples@,
                    scores@,
                    if i < orig.count {
                        i as int
                    } else {
                        orig.count as int
                    },
                ),
            decreases count - i,
        {
            match batch.pull(i) {
                Ok(mut sample) => {
                    sample.store(scores[i]);
                    let _ = batch.write(i, &sample);
                },
                Err(_) => {},
            }
            i += 1;
            assert(batch.samples@ =~= stamped(
                orig.samples@,
                scores@,
                if i < orig.count {
                    i as int
                } else {
                    orig.count as int
                },
            ));
        }
    }

    /// Scores the first `count` samples of `batch` on the CPU.
    pub fn fallback(&self, batch: &mut Batch, count: usize) -> (r: Result<(), Status>)
        requires
            old(batch).wf(),
        ensures
            final(batch).wf(),
            self.fell_back(*old(batch), *final(batch), count, r),
    {
        let ghost orig = *batch;
        let mut i: usize = 0;
        while i < count
            invariant
                i <= count,
                batch.wf(),
                *batch == (Batch { samples: batch.samples, ..orig }),
                orig == *old(batch),
                !self.active && orig.buffer.capacity > 0 && i > 0 ==> orig.count == 0,
                batch.samples@ == rescored_upto(
                    orig.samples@,
                    if orig.buffer.capacity == 0 {
                        0
                    } else if i < orig.count {
                        i as int
                    } else {
                        orig.count as int
                    },
                ),
                !self.active ==> *batch == orig,
            decreases count - i,
        {
            match batch.pull(i) {
                Ok(mut sample) => {
                    let score = match self.compute(&sample) {
                        Ok(v) => v,
                        Err(e) => {
                            return Err(e);
                        },
                    };
                    sample.store(score);
                    match batch.write(i, &sample) {
                        Ok(()) => {},
                        Err(e) => {
                            return Err(e);
                        },
                    }
                },
                Err(_) => {},
            }
            i += 1;
            assert(batch.samples@ =~= rescored_upto(
                orig.samples@,
                if orig.buffer.capacity == 0 {
                    0
                } else if i < orig.count {
                    i as int
                } else {
                    orig.count as int
                },
            ));
        }
        proof {
            assert(rescored_upto(orig.samples@, 0) =~= orig.samples@);
        }
        Ok(())
    }

    /// The device.
    pub fn device(&self) -> (r: &Device)
        ensures
            *r == self.device,
    {
        &self.device
    }

    /// Whether the device is a GPU.
    pub fn hardware(&self) -> (r: bool)
        ensures
            r == self.hardware,
    {
        self.hardware
    }

    /// Ready on a GPU, active on the CPU.
    pub fn status(&self) -> (r: Status)
        ensures
            r == self.status,
    {
        self.status
    }

    /// Best batch size.
    pub fn batch(&self) -> (r: usize)
        ensures
            r == self.batch,
    {
        self.batch
    }

    /// Resets the device and puts the scorer back in use, ready.
    pub fn reset(&mut self) -> (r: Result<(), Status>)
        ensures
            r is Ok,
            final(self).status == Status::Ready && final(self).active,
            final(self).device.guard.wf(),
            final(self).device.guard.allocated == 0,
            final(self).buffer == old(self).buffer,
    {
        let _ = self.device.reset();
        self.status = Status::Ready;
        self.active = true;
        Ok(())
    }
}

/// A batch flush by scorer `e`: the scorer stays and only the samples of
/// the batch change; an inactive scorer is a fault and leaves the batch; an
/// empty batch gives 0; a batch whose memory is there is rescored on the
/// host and its count returned.
pub open spec fn evaluator_flushed(e: Evaluator, b: Batch, e2: Evaluator, b2: Batch, r: Result<usize, Status>) -> bool {
    &&& b2.wf()
    &&& b2 == (Batch { samples: b2.samples, ..b })
    &&& e2 == e
    &&& !e.active ==> r == Err::<usize, Status>(Status::Fault) && b2 == b
    &&& e.active && b.count == 0 ==> r == Ok::<usize, Status>(0)
    &&& e.active && b.count > 0 && b.buffer.capacity > 0 ==> r == Ok::<usize, Status>(b.count)
        && b2.samples@ == rescored_upto(b.samples@, b.count as int)
}

impl Evaluable for Evaluator {
    open spec fn held(&self) -> bool {
        self.wf()
    }

    open spec fn flushed(&self, batch: &Batch, after: &Self, batch_after: &Batch, r: Result<usize, Status>) -> bool {
        evaluator_flushed(*self, *batch, *after, *batch_after, r)
    }

    /// Scores `sample` and appends the score's four little-endian bytes to
    /// the score memory as one frame.
    fn submit(&mut self, sample: &Sample) -> (r: Result<(), Status>)
        ensures
            final(self).wf(),
            !old(self).active ==> r == Err::<(), Status>(Status::Fault) && *final(self) == *old(self),
            old(self).active ==> r == pushed(old(self).buffer, 4) && (r is Ok
                ==> final(self).buffer.pending() == old(self).buffer.pending() + frame(
                bytes32(score_of(*sample) as i32 as u32 as int),
            )),
    {
        let score = match self.compute(sample) {
            Ok(v) => v,
            Err(e) => {
                return Err(e);
            },
        };
        let mut bytes: Vec<u8> = Vec::new();
        push32(&mut bytes, score as u32);
        proof {
            lemma_b32(score as u32 as int);
        }
        self.buffer.push(bytes.as_slice())
    }

    /// Scores the samples of `batch` on the host; a fault when the scorer is
    /// not in use.
    fn flush(&mut self, batch: &mut Batch) -> (r: Result<usize, Status>)
        ensures
            final(batch).wf(),
            *final(batch) == (Batch { samples: final(batch).samples, ..*old(batch) }),
            *final(self) == *old(self),
            !old(self).active ==> r == Err::<usize, Status>(Status::Fault) && *final(batch) == *old(
                batch,
            ),
            old(self).active && old(batch).count == 0 ==> r == Ok::<usize, Status>(0),
            old(self).active && old(batch).count > 0 && old(batch).buffer.capacity > 0 ==> r
                == Ok::<usize, Status>(old(batch).count) && final(batch).samples@ == rescored_upto(
                old(batch).samples@,
                old(batch).count as int,
            ),
    {
        if !self.active {
            return Err(Status::Fault);
        }
        let count = batch.count();
        if count == 0 {
            return Ok(0);
        }
        match self.execute(batch, count, None) {
            Ok(()) => Ok(count),
            Err(e) => Err(e),
        }
    }

    fn eval(&self, sample: &Sample) -> (r: Result<i32, Status>)
        ensures
            !self.active ==> r == Err::<i32, Status>(Status::Fault),
            self.active ==> r == Ok::<i32, Status>(score_of(*sample) as i32),
    {
        self.compute(sample)
    }
}

} // verus!
