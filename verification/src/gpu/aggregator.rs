//! Counters of a ring that gathers leaf samples before they go to a batch:
//! pushes claim positions at the tail, pulls release them at the head.
use vstd::prelude::*;
use crate::cqrs::queue::{is_next_pow2, next_pow2};
use super::sample::Sample;
use super::status::Status;

verus! {

/// Gathering samples.
pub trait Aggregatable {
    /// Claims a position for `sample`.
    fn push(&mut self, sample: &Sample) -> Result<(), Status>;

    /// Releases up to the length of `target` positions; returns how many.
    fn pull(&mut self, target: &mut [Sample]) -> usize;

    /// Back to empty.
    fn clear(&mut self);

    /// Positions claimed and not released.
    fn count(&self) -> usize;
}

/// The gathering ring.
#[derive(Debug)]
pub struct Aggregator {
    /// Position of the oldest claim.
    pub head: usize,
    /// Padding.
    pub pad1: [u8; 56],
    /// Position of the next claim.
    pub tail: usize,
    /// Number of positions, a power of two.
    pub capacity: usize,
    /// Padding.
    pub pad2: [u8; 48],
}

impl Aggregator {
    /// An empty ring of `capacity` positions rounded up to a power of two.
    pub fn new(capacity: usize) -> (r: Self)
        requires
            capacity <= usize::MAX / 2 + 1,
        ensures
            r.head == 0 && r.tail == 0,
            is_next_pow2(r.capacity, capacity),
    {
        let capacity = next_pow2(capacity);
        Self { head: 0, pad1: [0; 56], tail: 0, capacity, pad2: [0; 48] }
    }

    /// Position of the oldest claim.
    pub fn head(&self) -> (r: usize)
        ensures
            r == self.head,
    {
        self.head
    }

    /// Position of the next claim.
    pub fn tail(&self) -> (r: usize)
        ensures
            r == self.tail,
    {
        self.tail
    }

    /// Number of positions.
    pub fn capacity(&self) -> (r: usize)
        ensures
            r == self.capacity,
    {
        self.capacity
    }
}

impl Aggregatable for Aggregator {
    /// Claims the tail position (wrapping); full when the ring already held
    /// `capacity` claims, the claim being made all the same.
    fn push(&mut self, sample: &Sample) -> (r: Result<(), Status>)
        ensures
            *final(self) == (Aggregator { tail: old(self).tail.wrapping_add(1), ..*old(self) }),
            r is Err <==> old(self).tail.wrapping_sub(old(self).head) >= old(self).capacity,
            r is Err ==> r == Err::<(), Status>(Status::Full),
    {
        let tail = self.tail;
        self.tail = tail.wrapping_add(1);
        let head = self.head;
        if tail.wrapping_sub(head) >= self.capacity {
            return Err(Status::Full);
        }
        Ok(())
    }

    /// Releases as many claims as `target` has room for, at most all.
    fn pull(&mut self, target: &mut [Sample]) -> (r: usize)
        ensures
            final(target)@ == old(target)@,
            r == (if old(self).tail.wrapping_sub(old(self).head) < old(target)@.len() {
                old(self).tail.wrapping_sub(old(self).head) as int
            } else {
                old(target)@.len() as int
            }),
            *final(self) == (Aggregator { head: old(self).head.wrapping_add(r), ..*old(self) }),
    {
        let head = self.head;
        let tail = self.tail;
        let available = tail.wrapping_sub(head);
        if available == 0 {
            return 0;
        }
        let room = target.len();
        let count = if available < room {
            available
        } else {
            room
        };
        self.head = head.wrapping_add(count);
        count
    }

    fn clear(&mut self)
        ensures
            *final(self) == (Aggregator { head: 0, tail: 0, ..*old(self) }),
    {
        self.head = 0;
        self.tail = 0;
    }

    fn count(&self) -> (r: usize)
        ensures
            r == self.tail.wrapping_sub(self.head),
    {
        self.tail.wrapping_sub(self.head)
    }
}

} // verus!
