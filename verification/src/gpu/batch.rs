//! A batch of samples bound for the GPU, backed by device memory reserved
//! for its full capacity.
use vstd::prelude::*;
use super::buffer::Buffer;
use super::device::Device;
use super::guard::reserved;
use super::sample::Sample;
use super::status::Status;

verus! {

/// Managing a batch of samples.
pub trait Batchable {
    /// The state the batch operations need.
    spec fn held(&self) -> bool;

    /// A batch for up to `capacity` samples in memory of `device`.
    fn allocate(device: &mut Device, capacity: usize) -> Result<Batch, Status> where Self: Sized
        requires
            old(device).guard.wf(),
    ;

    /// Appends `sample`.
    fn push(&mut self, sample: &Sample) -> Result<(), Status>
        requires
            old(self).held(),
    ;

    /// The sample at `index`.
    fn pull(&self, index: usize) -> Result<Sample, Status>
        requires
            self.held(),
    ;

    /// Replaces the sample at `index`.
    fn write(&mut self, index: usize, sample: &Sample) -> Result<(), Status>
        requires
            old(self).held(),
    ;

    /// Whether the batch is at capacity.
    fn full(&self) -> bool;

    /// Whether the batch holds no sample.
    fn empty(&self) -> bool;

    /// Empties the batch.
    fn clear(&mut self)
        requires
            old(self).held(),
    ;
}

/// A push of `sample` onto `b`, leaving `b2` and result `r`: full at
/// capacity and a fault once the memory is freed, both changing nothing;
/// otherwise the sample is appended and the batch becomes active.
pub open spec fn pushed_onto(b: Batch, sample: Sample, b2: Batch, r: Result<(), Status>) -> bool {
    &&& b2.wf()
    &&& b2.keeps(b)
    &&& b.count >= b.capacity ==> r == Err::<(), Status>(Status::Full)
    &&& b.count < b.capacity && b.buffer.capacity == 0 ==> r == Err::<(), Status>(Status::Fault)
    &&& b.count < b.capacity && b.buffer.capacity > 0 ==> r is Ok
    &&& r is Err ==> b2 == b
    &&& r is Ok ==> b2.samples@ == b.samples@.push(sample) && b2.status == Status::Active
}

/// A read of the sample at `index` of `b`: the sample when `index` is below
/// the count and the memory is there, a fault otherwise.
pub open spec fn pulled_from(b: Batch, index: usize, r: Result<Sample, Status>) -> bool {
    &&& r is Ok <==> index < b.count && b.buffer.capacity > 0
    &&& r is Ok ==> r == Ok::<Sample, Status>(b.samples@[index as int])
    &&& r is Err ==> r == Err::<Sample, Status>(Status::Fault)
}

/// A write of `sample` at `index` of `b`, leaving `b2` and result `r`: the
/// sample replaced when `index` is below the count and the memory is there;
/// a fault changing nothing otherwise.
pub open spec fn written_into(b: Batch, index: usize, sample: Sample, b2: Batch, r: Result<(), Status>) -> bool {
    &&& b2.wf()
    &&& r is Ok <==> index < b.count && b.buffer.capacity > 0
    &&& r is Err ==> r == Err::<(), Status>(Status::Fault) && b2 == b
    &&& r is Ok ==> b2 == (Batch { samples: b2.samples, ..b }) && b2.samples@ == b.samples@.update(index as int, sample)
}

/// A batch of samples.
#[derive(Debug)]
pub struct Batch {
    /// Device memory reserved for the batch.
    pub buffer: Buffer,
    /// The samples, in order.
    pub samples: Vec<Sample>,
    /// Number of samples.
    pub count: usize,
    /// Most samples the batch takes.
    pub capacity: usize,
    /// Bytes per sample.
    pub stride: usize,
    /// Ready when empty, active once filled.
    pub status: Status,
    /// The batch is in use.
    pub active: bool,
    /// Host and device share the batch's memory.
    pub shared: bool,
    /// Padding.
    pub pad: [u8; 37],
}

/// Bytes per sample.
pub const STRIDE: usize = 128;

/// Largest batch.
pub const MAXIMUM: usize = 16384;

impl Batch {
    /// The samples agree with the count, within capacity, in held memory.
    pub open spec fn wf(&self) -> bool {
        &&& self.samples@.len() == self.count
        &&& self.count <= self.capacity
        &&& self.buffer.wf()
    }

    /// Everything but the samples, count and status is unchanged.
    pub open spec fn keeps(&self, other: Batch) -> bool {
        &&& self.buffer == other.buffer
        &&& self.capacity == other.capacity
        &&& self.stride == other.stride
        &&& self.active == other.active
        &&& self.shared == other.shared
    }

    /// An empty batch for up to `capacity` samples, with memory for all of
    /// them reserved from `device`. A capacity of 0 or above 16384 is a
    /// fault; so is what the device refuses.
    pub fn allocate(device: &mut Device, capacity: usize) -> (r: Result<Self, Status>)
        requires
            old(device).guard.wf(),
        ensures
            final(device).guard.wf(),
            final(device).backend == old(device).backend && final(device).unified == old(
                device,
            ).unified && final(device).adapter == old(device).adapter,
            capacity == 0 || capacity > MAXIMUM ==> r == Err::<Self, Status>(Status::Fault)
                && final(device).guard == old(device).guard,
            match r {
                Ok(b) => {
                    &&& 0 < capacity <= MAXIMUM
                    &&& b.wf()
                    &&& b.count == 0 && b.capacity == capacity && b.stride == STRIDE
                    &&& b.status == Status::Ready && b.active
                    &&& b.buffer.capacity >= capacity * STRIDE
                    &&& b.shared == b.buffer.shared
                    &&& final(device).guard == reserved(old(device).guard, (capacity
                        * STRIDE) as usize).0
                },
                Err(e) => e == Status::Fault || e == Status::Exhausted,
            },
    {
        if capacity == 0 || capacity > MAXIMUM {
            return Err(Status::Fault);
        }
        let stride = STRIDE;
        let bytes = capacity * stride;
        let buffer = match device.allocate(bytes) {
            Ok(b) => b,
            Err(e) => {
                return Err(e);
            },
        };
        let shared = buffer.shared();
        Ok(
            Self {
                buffer,
                samples: Vec::new(),
                count: 0,
                capacity,
                stride,
                status: Status::Ready,
                active: true,
                shared,
                pad: [0; 37],
            },
        )
    }

    /// Appends `sample`; full when at capacity, a fault once the memory is
    /// freed, changing nothing either way.
    pub fn push(&mut self, sample: &Sample) -> (r: Result<(), Status>)
        requires
            old(self).wf(),
        ensures
            pushed_onto(*old(self), *sample, *final(self), r),
    {
        if self.count >= self.capacity {
            return Err(Status::Full);
        }
        if self.buffer.capacity == 0 {
            return Err(Status::Fault);
        }
        self.samples.push(*sample);
        self.count = self.count + 1;
        self.status = Status::Active;
        Ok(())
    }

    /// The sample at `index`; a fault past the count or once the memory is
    /// freed.
    pub fn pull(&self, index: usize) -> (r: Result<Sample, Status>)
        requires
            self.wf(),
        ensures
            pulled_from(*self, index, r),
    {
        if index >= self.count {
            return Err(Status::Fault);
        }
        if self.buffer.capacity == 0 {
            return Err(Status::Fault);
        }
        Ok(self.samples[index])
    }

    /// Replaces the sample at `index`; a fault, changing nothing, past the
    /// count or once the memory is freed.
    pub fn write(&mut self, index: usize, sample: &Sample) -> (r: Result<(), Status>)
        requires
            old(self).wf(),
        ensures
            written_into(*old(self), index, *sample, *final(self), r),
    {
        if index >= self.count {
            return Err(Status::Fault);
        }
        if self.buffer.capacity == 0 {
            return Err(Status::Fault);
        }
        self.samples.set(index, *sample);
        Ok(())
    }

    /// Number of samples.
    pub fn count(&self) -> (r: usize)
        ensures
            r == self.count,
    {
        self.count
    }

    /// Most samples the batch takes.
    pub fn capacity(&self) -> (r: usize)
        ensures
            r == self.capacity,
    {
        self.capacity
    }

    /// Bytes per sample.
    pub fn stride(&self) -> (r: usize)
        ensures
            r == self.stride,
    {
        self.stride
    }

    /// Bytes of the samples held.
    pub fn bytes(&self) -> (r: usize)
        requires
            self.count * self.stride <= usize::MAX,
        ensures
            r == self.count * self.stride,
    {
        self.count * self.stride
    }

    /// Ready when empty, active once filled.
    pub fn status(&self) -> (r: Status)
        ensures
            r == self.status,
    {
        self.status
    }

    /// Whether the batch is in use.
    pub fn active(&self) -> (r: bool)
        ensures
            r == self.active,
    {
        self.active
    }

    /// Whether host and device share the batch's memory.
    pub fn shared(&self) -> (r: bool)
        ensures
            r == self.shared,
    {
        self.shared
    }

    /// The device memory of the batch.
    pub fn buffer(&self) -> (r: &Buffer)
        ensures
            *r == self.buffer,
    {
        &self.buffer
    }

    /// Whether the batch is at capacity.
    pub fn full(&self) -> (r: bool)
        ensures
            r == (self.count >= self.capacity),
    {
        self.count >= self.capacity
    }

    /// Whether the batch holds no sample.
    pub fn empty(&self) -> (r: bool)
        ensures
            r == (self.count == 0),
    {
        self.count == 0
    }

    /// Empties the batch, back to ready.
    pub fn clear(&mut self)
        requires
            old(self).wf(),
        ensures
            final(self).wf(),
            final(self).keeps(*old(self)),
            final(self).count == 0 && final(self).status == Status::Ready,
    {
        self.samples.clear();
        self.count = 0;
        self.status = Status::Ready;
    }
}

impl Batchable for Batch {
    open spec fn held(&self) -> bool {
        self.wf()
    }

    fn allocate(device: &mut Device, capacity: usize) -> (r: Result<Batch, Status>)
        ensures
            final(device).guard.wf(),
            capacity == 0 || capacity > MAXIMUM ==> r == Err::<Batch, Status>(Status::Fault),
            r is Ok ==> r->Ok_0.wf() && r->Ok_0.count == 0 && r->Ok_0.capacity == capacity,
    {
        Batch::allocate(device, capacity)
    }

    fn push(&mut self, sample: &Sample) -> (r: Result<(), Status>)
        ensures
            pushed_onto(*old(self), *sample, *final(self), r),
    {
        Batch::push(self, sample)
    }

    fn pull(&self, index: usize) -> (r: Result<Sample, Status>)
        ensures
            pulled_from(*self, index, r),
    {
        Batch::pull(self, index)
    }

    fn write(&mut self, index: usize, sample: &Sample) -> (r: Result<(), Status>)
        ensures
            written_into(*old(self), index, *sample, *final(self), r),
    {
        Batch::write(self, index, sample)
    }

    fn full(&self) -> (r: bool)
        ensures
            r == (self.count >= self.capacity),
    {
        Batch::full(self)
    }

    fn empty(&self) -> (r: bool)
        ensures
            r == (self.count == 0),
    {
        Batch::empty(self)
    }

    fn clear(&mut self)
        ensures
            final(self).wf(),
            final(self).count == 0,
    {
        Batch::clear(self)
    }
}

} // verus!
