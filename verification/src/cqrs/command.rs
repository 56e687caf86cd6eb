//! Commands that change the engine's state.
use vstd::prelude::*;

verus! {

/// A command.
#[derive(Clone, Debug, PartialEq, Eq)]
pub enum Command {
    /// Set up a position from a FEN record and moves played from it.
    Position {
        /// FEN record.
        fen: String,
        /// Moves in coordinate notation.
        moves: Vec<String>,
    },
    /// Start a search within the given limits.
    Go {
        /// Depth limit.
        depth: u8,
        /// Node limit.
        nodes: u64,
        /// Search until stopped.
        infinite: bool,
        /// Fixed search time in ms.
        span: u64,
        /// Red's remaining time in ms.
        red: u64,
        /// Black's remaining time in ms.
        black: u64,
        /// Red's increment in ms.
        gain: u64,
        /// Black's increment in ms.
        extra: u64,
    },
    /// Stop the running search.
    Stop,
    /// Set an option.
    Option {
        /// Option name.
        name: String,
        /// New value.
        value: String,
    },
    /// Back to the starting position.
    Reset,
    /// Quit.
    Quit,
}

} // verus!
