//! Thresholds of the circuit breaker.
use vstd::prelude::*;

verus! {

/// Breaker thresholds.
#[derive(Clone, Copy, Debug)]
pub struct Config {
    /// Failures in a row that trip the breaker.
    pub limit: u32,
    /// Wait, in ticks, before a tripped breaker lets a trial through.
    pub span: u64,
    /// Successful trials needed to close again.
    pub probe: u32,
    /// Lowest valid score.
    pub floor: i32,
    /// Highest valid score.
    pub ceiling: i32,
    /// Padding.
    pub pad: [u8; 36],
}

impl Config {
    /// The standard thresholds: 5 failures, 10000 ticks, 100 trials, scores
    /// within ±29999.
    pub fn new() -> (r: Self)
        ensures
            r.limit == 5 && r.span == 10000 && r.probe == 100 && r.floor == -29999 && r.ceiling
                == 29999,
    {
        Self { limit: 5, span: 10000, probe: 100, floor: -29999, ceiling: 29999, pad: [0; 36] }
    }
}

impl Default for Config {
    /// The standard thresholds.
    fn default() -> (r: Self)
        ensures
            r.limit == 5 && r.span == 10000 && r.probe == 100 && r.floor == -29999 && r.ceiling
                == 29999,
    {
        Self::new()
    }
}

} // verus!
