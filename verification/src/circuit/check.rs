//! Score bounds check.
use vstd::prelude::*;

verus! {

/// Stateless score checks.
pub struct Check;

impl Check {
    /// Whether `score` lies within `[floor, ceiling]`.
    pub fn valid(score: i32, floor: i32, ceiling: i32) -> (r: bool)
        ensures
            r == (floor <= score && score <= ceiling),
    {
        score >= floor && score <= ceiling
    }
}

} // verus!
