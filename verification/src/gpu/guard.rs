//! Accounting of device memory: reservations are refused above a safety
//! ceiling below the hard limit, and releases never take the count below
//! zero.
use vstd::prelude::*;
use super::status::Status;

verus! {

/// Checking a request for device memory against the guard's limits.
pub trait Validatable {
    /// The status a request for `bytes` more would meet.
    fn validate(&self, bytes: usize) -> Status;
}

/// Device memory accounting.
#[derive(Debug)]
pub struct Guard {
    /// Hard limit in bytes.
    pub limit: usize,
    /// Safety ceiling in bytes.
    pub ceiling: usize,
    /// Bytes reserved now.
    pub allocated: usize,
    /// Highest number of bytes reserved at once.
    pub peak: usize,
    /// Number of reservations held.
    pub count: usize,
    /// Size of one chunk when data is split.
    pub chunk: usize,
    /// Padding.
    pub pad: [u8; 16],
}

/// `a + b`, or `usize::MAX` when that overflows.
pub open spec fn saturated(a: usize, b: usize) -> int {
    if a + b > usize::MAX {
        usize::MAX as int
    } else {
        a + b
    }
}

/// The guard after a request for `bytes` and the answer: a request for
/// nothing is a fault; one that would take the reserved bytes over the
/// ceiling is refused as exhausted; otherwise the bytes are reserved, one
/// more reservation is counted, the peak follows, and the new total is
/// returned.
pub open spec fn reserved(g: Guard, bytes: usize) -> (Guard, Result<usize, Status>) {
    if bytes == 0 {
        (g, Err(Status::Fault))
    } else if saturated(g.allocated, bytes) > g.ceiling {
        (g, Err(Status::Exhausted))
    } else {
        let next = (g.allocated + bytes) as usize;
        (
            Guard {
                allocated: next,
                count: g.count.wrapping_add(1),
                peak: if next > g.peak {
                    next
                } else {
                    g.peak
                },
                ..g
            },
            Ok(next),
        )
    }
}

/// The guard after giving back `bytes`: the reserved bytes drop by at most
/// what is reserved, and one reservation fewer is counted unless none is.
pub open spec fn released(g: Guard, bytes: usize) -> Guard {
    if bytes == 0 {
        g
    } else {
        Guard {
            allocated: if bytes > g.allocated {
                0
            } else {
                (g.allocated - bytes) as usize
            },
            count: if g.count == 0 {
                0
            } else {
                (g.count - 1) as usize
            },
            ..g
        }
    }
}

/// The status of a request for `bytes` more: ready within the ceiling, full
/// within the hard limit, a failure beyond it.
pub open spec fn validated(g: Guard, bytes: usize) -> Status {
    let target = saturated(g.allocated, bytes);
    if target <= g.ceiling {
        Status::Ready
    } else if target <= g.limit {
        Status::Full
    } else {
        Status::Fail
    }
}

/// Reservations stay within the ceiling: from a state within it, a
/// reservation leaves the reserved bytes within the ceiling and the peak at
/// least as high as them, and a release only lowers them; releasing what a
/// successful reservation took gives the reserved bytes back as they were.
pub proof fn lemma_guard_bounds(g: Guard, bytes: usize)
    requires
        g.wf(),
        g.allocated <= g.ceiling,
        g.allocated <= g.peak,
    ensures
        reserved(g, bytes).0.allocated <= reserved(g, bytes).0.ceiling,
        reserved(g, bytes).0.allocated <= reserved(g, bytes).0.peak,
        released(g, bytes).allocated <= g.allocated,
        released(g, bytes).allocated <= released(g, bytes).peak,
        reserved(g, bytes).1 is Ok ==> released(reserved(g, bytes).0, bytes).allocated == g.allocated,
{
}

impl Guard {
    /// Hard limit: 512 MiB.
    pub const LIMIT: usize = 536_870_912;

    /// Safety ceiling: 80% of the hard limit.
    pub const CEILING: usize = 429_496_729;

    /// Chunk size: 64 MiB.
    pub const CHUNK: usize = 67_108_864;

    /// The limits are the standard ones.
    pub open spec fn wf(&self) -> bool {
        &&& self.limit == Self::LIMIT
        &&& self.ceiling == Self::CEILING
        &&& self.chunk == Self::CHUNK
    }

    /// Exhausted at or above the ceiling, active with anything reserved,
    /// ready otherwise.
    pub open spec fn status_of(&self) -> Status {
        if self.allocated >= self.ceiling {
            Status::Exhausted
        } else if self.allocated > 0 {
            Status::Active
        } else {
            Status::Ready
        }
    }

    /// A guard with the standard limits and nothing reserved.
    pub fn new() -> (r: Self)
        ensures
            r.wf(),
            r.allocated == 0 && r.peak == 0 && r.count == 0,
    {
        Self {
            limit: Self::LIMIT,
            ceiling: Self::CEILING,
            allocated: 0,
            peak: 0,
            count: 0,
            chunk: Self::CHUNK,
            pad: [0; 16],
        }
    }

    /// Reserves `bytes`; returns the bytes reserved afterwards.
    pub fn reserve(&mut self, bytes: usize) -> (r: Result<usize, Status>)
        requires
            old(self).wf(),
        ensures
            final(self).wf(),
            (*final(self), r) == reserved(*old(self), bytes),
    {
        if bytes == 0 {
            return Err(Status::Fault);
        }
        let current = self.allocated;
        if current.saturating_add(bytes) > self.ceiling {
            return Err(Status::Exhausted);
        }
        let next = current + bytes;
        self.allocated = next;
        self.count = self.count.wrapping_add(1);
        if next > self.peak {
            self.peak = next;
        }
        Ok(next)
    }

    /// Gives back `bytes`.
    pub fn release(&mut self, bytes: usize)
        ensures
            *final(self) == released(*old(self), bytes),
    {
        if bytes == 0 {
            return;
        }
        let current = self.allocated;
        if current > 0 {
            let free = if bytes > current {
                current
            } else {
                bytes
            };
            self.allocated = current - free;
        }
        if self.count > 0 {
            self.count = self.count - 1;
        }
    }

    /// Bytes reserved now.
    pub fn allocated(&self) -> (r: usize)
        ensures
            r == self.allocated,
    {
        self.allocated
    }

    /// Highest number of bytes reserved at once.
    pub fn peak(&self) -> (r: usize)
        ensures
            r == self.peak,
    {
        self.peak
    }

    /// Number of reservations held.
    pub fn count(&self) -> (r: usize)
        ensures
            r == self.count,
    {
        self.count
    }

    /// Hard limit in bytes.
    pub fn limit(&self) -> (r: usize)
        ensures
            r == self.limit,
    {
        self.limit
    }

    /// Safety ceiling in bytes.
    pub fn ceiling(&self) -> (r: usize)
        ensures
            r == self.ceiling,
    {
        self.ceiling
    }

    /// Number of chunks `bytes` splits into, rounding up.
    pub fn chunks(&self, bytes: usize) -> (r: usize)
        requires
            self.wf(),
            bytes + Self::CHUNK - 1 <= usize::MAX,
        ensures
            r == (bytes + Self::CHUNK - 1) / (Self::CHUNK as int),
    {
        if bytes == 0 {
            0
        } else {
            (bytes + (self.chunk - 1)) / self.chunk
        }
    }

    /// Exhausted at or above the ceiling, active with anything reserved,
    /// ready otherwise.
    pub fn status(&self) -> (r: Status)
        ensures
            r == self.status_of(),
    {
        let current = self.allocated;
        if current >= self.ceiling {
            Status::Exhausted
        } else if current > 0 {
            Status::Active
        } else {
            Status::Ready
        }
    }

    /// Clears the reserved bytes, the peak and the count.
    pub fn wipe(&mut self)
        ensures
            *final(self) == (Guard { allocated: 0, peak: 0, count: 0, ..*old(self) }),
    {
        self.allocated = 0;
        self.peak = 0;
        self.count = 0;
    }
}

impl Validatable for Guard {
    fn validate(&self, bytes: usize) -> (r: Status)
        ensures
            r == validated(*self, bytes),
    {
        let target = self.allocated.saturating_add(bytes);
        if target <= self.ceiling {
            Status::Ready
        } else if target <= self.limit {
            Status::Full
        } else {
            Status::Fail
        }
    }
}

impl Default for Guard {
    fn default() -> (r: Self)
        ensures
            r.wf(),
            r.allocated == 0 && r.peak == 0 && r.count == 0,
    {
        Self::new()
    }
}

} // verus!
