//! The three states of the circuit breaker.
use vstd::prelude::*;

verus! {

/// Circuit state: `Closed` lets every query through, `Open` refuses them
/// until its wait is over, `Half` lets trial queries through.
#[derive(Clone, Copy, Debug, PartialEq, Eq, Structural)]
pub enum State {
    /// Normal operation (code 0).
    Closed,
    /// Trial operation after a wait (code 1).
    Half,
    /// Tripped (code 2).
    Open,
}

/// The state that code `val` stands for: 0 closed, 1 half open, any other
/// value open.
pub open spec fn state_of(val: u8) -> State {
    if val == 0 {
        State::Closed
    } else if val == 1 {
        State::Half
    } else {
        State::Open
    }
}

/// The code of a state.
pub open spec fn code_of(s: State) -> u8 {
    match s {
        State::Closed => 0,
        State::Half => 1,
        State::Open => 2,
    }
}

impl State {
    /// The code of the state: 0, 1 or 2.
    pub fn raw(self) -> (r: u8)
        ensures
            r == code_of(self),
    {
        match self {
            State::Closed => 0,
            State::Half => 1,
            State::Open => 2,
        }
    }

    /// The state of code `val`.
    pub fn parse(val: u8) -> (r: Self)
        ensures
            r == state_of(val),
    {
        match val {
            0 => State::Closed,
            1 => State::Half,
            _ => State::Open,
        }
    }
}

/// Reading back the code of a state gives the state.
pub proof fn lemma_parse_raw(s: State)
    ensures
        state_of(code_of(s)) == s,
{
}

} // verus!
