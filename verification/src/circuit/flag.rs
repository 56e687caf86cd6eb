//! Feature switches, with a rollback that turns off the accelerated paths.
use vstd::prelude::*;

verus! {

/// A switchable feature.
#[derive(Clone, Copy, Debug, PartialEq, Eq, Structural)]
pub enum Feature {
    /// GPU acceleration.
    Gpu,
    /// The double-buffered queue.
    Queue,
    /// Move ordering.
    Sorting,
    /// Null-move pruning.
    Pruning,
    /// Fallback to the CPU evaluation.
    Rollback,
}

/// The feature switches and the number of rollbacks so far.
#[derive(Debug)]
pub struct Manager {
    gpu: bool,
    queue: bool,
    ordering: bool,
    pruning: bool,
    rollback: bool,
    rollbacks: usize,
    pad: [u8; 48],
}

impl Manager {
    /// Whether `feature` is on.
    pub closed spec fn on(&self, feature: Feature) -> bool {
        match feature {
            Feature::Gpu => self.gpu,
            Feature::Queue => self.queue,
            Feature::Sorting => self.ordering,
            Feature::Pruning => self.pruning,
            Feature::Rollback => self.rollback,
        }
    }

    /// Number of rollbacks so far.
    pub closed spec fn spec_rollbacks(&self) -> usize {
        self.rollbacks
    }

    /// All features on but rollback; no rollbacks yet.
    pub fn new() -> (r: Self)
        ensures
            r.on(Feature::Gpu) && r.on(Feature::Queue) && r.on(Feature::Sorting) && r.on(
                Feature::Pruning,
            ) && !r.on(Feature::Rollback),
            r.spec_rollbacks() == 0,
    {
        Self {
            gpu: true,
            queue: true,
            ordering: true,
            pruning: true,
            rollback: false,
            rollbacks: 0,
            pad: [0u8; 48],
        }
    }

    /// Whether `feature` is on.
    pub fn check(&self, feature: Feature) -> (r: bool)
        ensures
            r == self.on(feature),
    {
        match feature {
            Feature::Gpu => self.gpu,
            Feature::Queue => self.queue,
            Feature::Sorting => self.ordering,
            Feature::Pruning => self.pruning,
            Feature::Rollback => self.rollback,
        }
    }

    /// Turns `feature` on or off; the other switches stay as they are.
    pub fn toggle(&mut self, feature: Feature, enable: bool)
        ensures
            final(self).on(feature) == enable,
            forall|f: Feature| f != feature ==> #[trigger] final(self).on(f) == old(self).on(f),
            final(self).spec_rollbacks() == old(self).spec_rollbacks(),
    {
        match feature {
            Feature::Gpu => self.gpu = enable,
            Feature::Queue => self.queue = enable,
            Feature::Sorting => self.ordering = enable,
            Feature::Pruning => self.pruning = enable,
            Feature::Rollback => self.rollback = enable,
        }
    }

    /// Falls back to the CPU: rollback on, GPU and queue off, one more
    /// rollback counted (wrapping).
    pub fn trigger_rollback(&mut self)
        ensures
            final(self).on(Feature::Rollback),
            !final(self).on(Feature::Gpu),
            !final(self).on(Feature::Queue),
            final(self).on(Feature::Sorting) == old(self).on(Feature::Sorting),
            final(self).on(Feature::Pruning) == old(self).on(Feature::Pruning),
            old(self).spec_rollbacks() < usize::MAX ==> final(self).spec_rollbacks() == old(self).spec_rollbacks() + 1,
            old(self).spec_rollbacks() == usize::MAX ==> final(self).spec_rollbacks() == 0,
    {
        self.rollback = true;
        self.gpu = false;
        self.queue = false;
        self.rollbacks = self.rollbacks.wrapping_add(1);
    }

    /// Number of rollbacks so far.
    pub fn count_rollbacks(&self) -> (r: usize)
        ensures
            r == self.spec_rollbacks(),
    {
        self.rollbacks
    }
}

} // verus!
