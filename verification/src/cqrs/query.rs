//! Read-only queries.
use vstd::prelude::*;

verus! {

/// A query.
#[derive(Clone, Debug, PartialEq, Eq)]
pub enum Query {
    /// The current position as FEN.
    Position,
    /// Search statistics.
    Stats,
    /// Static evaluation of the current position.
    Eval,
    /// The value of an option.
    Option {
        /// Option name.
        name: String,
    },
    /// State of the network circuit breaker.
    State,
}

} // verus!
