//! The circuit breaker that switches between the network evaluation and the
//! handcrafted one: failures trip it open, a wait lets trials through, and
//! enough successful trials close it again.
use vstd::prelude::*;
use super::config::Config;
use super::state::{State, state_of};

verus! {

/// Breaker state and counters.
#[derive(Clone, Copy, Debug)]
pub struct Breaker {
    /// State code (0 closed, 1 half open, other open).
    pub state: u8,
    /// Failures in a row.
    pub fails: u32,
    /// Results recorded.
    pub total: u32,
    /// Failures in a row that trip the breaker.
    pub limit: u32,
    /// Tick at which the breaker last tripped.
    pub ticks: u64,
    /// Wait before a tripped breaker lets a trial through.
    pub span: u64,
    /// Successful trials since the breaker went half open.
    pub probe: u32,
    /// Lowest valid score.
    pub floor: i32,
    /// Highest valid score.
    pub ceiling: i32,
    /// Padding.
    pub pad: [u8; 16],
}

/// The breaker after `allow(tick)` and whether the query is let through:
/// closed and half open let it through; open lets it through, going half
/// open with no trials yet, once `span` ticks have passed since it tripped
/// and its code is exactly 2.
pub open spec fn allowed(b: Breaker, tick: u64) -> (Breaker, bool) {
    if state_of(b.state) != State::Open {
        (b, true)
    } else if tick >= b.ticks && tick - b.ticks >= b.span && b.state == 2 {
        (Breaker { state: 1, probe: 0, ..b }, true)
    } else {
        (b, false)
    }
}

/// The breaker after recording a result at `tick`. A success while half
/// open counts a trial, and the hundredth closes the breaker and clears the
/// failures. A failure counts one more in a row; when half open or at the
/// limit, the breaker opens, noting the tick if it was not open.
pub open spec fn recorded(b: Breaker, valid: bool, tick: u64) -> Breaker {
    let total = ((b.total + 1) % 0x1_0000_0000) as u32;
    let curr = state_of(b.state);
    if valid {
        if curr == State::Half {
            let count = (b.probe + 1) as u32;
            if count >= 100 {
                Breaker { total, probe: count, state: 0, fails: 0, ..b }
            } else {
                Breaker { total, probe: count, ..b }
            }
        } else {
            Breaker { total, ..b }
        }
    } else {
        let fails = (b.fails + 1) as u32;
        if curr == State::Half || fails >= b.limit {
            Breaker {
                total,
                fails,
                state: 2,
                ticks: if b.state != 2 {
                    tick
                } else {
                    b.ticks
                },
                ..b
            }
        } else {
            Breaker { total, fails, ..b }
        }
    }
}

impl Breaker {
    /// A closed breaker with the standard thresholds and no results.
    pub fn new() -> (r: Self)
        ensures
            r.state == 0 && r.fails == 0 && r.total == 0 && r.ticks == 0 && r.probe == 0,
            r.limit == 5 && r.span == 10000 && r.floor == -29999 && r.ceiling == 29999,
    {
        let config = Config::new();
        Self {
            state: 0,
            fails: 0,
            total: 0,
            limit: config.limit,
            ticks: 0,
            span: config.span,
            probe: 0,
            floor: config.floor,
            ceiling: config.ceiling,
            pad: [0; 16],
        }
    }

    /// The current state.
    pub fn state(&self) -> (r: State)
        ensures
            r == state_of(self.state),
    {
        State::parse(self.state)
    }

    /// Whether a query may use the network at `tick`.
    pub fn allow(&mut self, tick: u64) -> (r: bool)
        ensures
            (*final(self), r) == allowed(*old(self), tick),
    {
        let curr = self.state();
        match curr {
            State::Closed => true,
            State::Half => true,
            State::Open => {
                let last = self.ticks;
                let span = self.span;
                if tick >= last && tick - last >= span {
                    if self.state == 2 {
                        self.state = 1;
                        self.probe = 0;
                        return true;
                    }
                }
                false
            },
        }
    }

    /// Records whether an evaluation at `tick` was valid.
    pub fn record(&mut self, valid: bool, tick: u64)
        requires
            !valid ==> old(self).fails < u32::MAX,
            valid && state_of(old(self).state) == State::Half ==> old(self).probe < u32::MAX,
        ensures
            *final(self) == recorded(*old(self), valid, tick),
    {
        self.total = self.total.wrapping_add(1);
        let curr = self.state();
        if valid {
            if curr == State::Half {
                let count = self.probe + 1;
                self.probe = count;
                if count >= 100 {
                    if self.state == 1 {
                        self.state = 0;
                        self.fails = 0;
                    }
                }
            }
        } else {
            let fails = self.fails + 1;
            self.fails = fails;
            let limit = self.limit;
            if curr == State::Half || fails >= limit {
                let previous = self.state;
                self.state = 2;
                if previous != 2 {
                    self.ticks = tick;
                }
            }
        }
    }

    /// Closes the breaker and clears its counters and tick.
    pub fn reset(&mut self)
        ensures
            *final(self) == (Breaker { state: 0, fails: 0, total: 0, probe: 0, ticks: 0, ..*old(self) }),
    {
        self.state = 0;
        self.fails = 0;
        self.total = 0;
        self.probe = 0;
        self.ticks = 0;
    }
}

impl Default for Breaker {
    /// A new breaker.
    fn default() -> (r: Self)
        ensures
            r.state == 0 && r.fails == 0 && r.total == 0 && r.ticks == 0 && r.probe == 0,
            r.limit == 5 && r.span == 10000 && r.floor == -29999 && r.ceiling == 29999,
    {
        Self::new()
    }
}

/// A failure while half open, or one that reaches the limit, leaves the
/// breaker open with its failures counted.
pub proof fn lemma_failure_trips(b: Breaker, tick: u64)
    requires
        b.fails < u32::MAX,
        state_of(b.state) == State::Half || b.fails + 1 >= b.limit,
    ensures
        state_of(recorded(b, false, tick).state) == State::Open,
        recorded(b, false, tick).fails == b.fails + 1,
{
}

/// An open breaker refuses every query until `span` ticks have passed since
/// it tripped, and changes nothing while it refuses.
pub proof fn lemma_open_waits(b: Breaker, tick: u64)
    requires
        state_of(b.state) == State::Open,
        tick < b.ticks || tick - b.ticks < b.span,
    ensures
        allowed(b, tick) == (b, false),
{
}

/// Once the wait is over, a tripped breaker lets a trial through and goes
/// half open; the hundredth successful trial then closes it.
pub proof fn lemma_trial_closes(b: Breaker, tick: u64)
    requires
        b.state == 1,
        b.probe == 99,
    ensures
        recorded(b, true, tick).state == 0,
        recorded(b, true, tick).fails == 0,
{
}

/// Failures below the limit do not trip a closed breaker: a failure that
/// leaves the failures in a row under the limit keeps it closed, counts the
/// failure, and the next query is still let through.
pub proof fn lemma_failure_below_limit(b: Breaker, tick: u64, next: u64)
    requires
        state_of(b.state) == State::Closed,
        b.fails + 1 < b.limit,
    ensures
        state_of(recorded(b, false, tick).state) == State::Closed,
        recorded(b, false, tick).fails == b.fails + 1,
        allowed(recorded(b, false, tick), next).1,
{
}

/// A success never trips the breaker: after a valid result the breaker is
/// no more open than before, and a closed breaker stays closed with its
/// failures in a row unchanged.
pub proof fn lemma_success_keeps(b: Breaker, tick: u64)
    ensures
        state_of(b.state) == State::Closed ==> state_of(recorded(b, true, tick).state) == State::Closed
            && recorded(b, true, tick).fails == b.fails,
        state_of(recorded(b, true, tick).state) == State::Open ==> state_of(b.state) == State::Open,
{
}

/// Once `span` ticks have passed since it tripped, a tripped breaker (code
/// 2) lets the next query through as a trial and goes half open with no
/// trials counted; a closed or half-open breaker lets every query through
/// unchanged.
pub proof fn lemma_wait_over(b: Breaker, tick: u64)
    ensures
        b.state == 2 && tick >= b.ticks && tick - b.ticks >= b.span ==> allowed(b, tick).1 && state_of(
            allowed(b, tick).0.state,
        ) == State::Half && allowed(b, tick).0.probe == 0,
        state_of(b.state) != State::Open ==> allowed(b, tick) == (b, true),
{
}

} // verus!
