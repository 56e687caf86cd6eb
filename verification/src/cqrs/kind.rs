//! The three kinds of message.
use vstd::prelude::*;

verus! {

/// What a message is.
#[derive(Clone, Copy, Debug, PartialEq, Eq, Structural)]
pub enum Kind {
    /// A command that changes the engine.
    Command,
    /// A read-only query.
    Query,
    /// An event the engine reports.
    Event,
}

} // verus!
