//! Progress of a message.
use vstd::prelude::*;

verus! {

/// Where a message stands.
#[derive(Clone, Copy, Debug, PartialEq, Eq, Structural)]
pub enum Status {
    /// Waiting in the queue.
    Pending,
    /// Done.
    Success,
    /// Failed.
    Failed,
    /// Cancelled before completion.
    Aborted,
}

} // verus!
