//! Events the engine reports.
use vstd::prelude::*;

verus! {

/// An event.
#[derive(Clone, Debug, PartialEq, Eq)]
pub enum Event {
    /// Best move and expected reply, packed.
    Move {
        /// Best move.
        best: u16,
        /// Expected reply.
        ponder: u16,
    },
    /// Score update.
    Score {
        /// Centipawns.
        cp: i32,
        /// Moves to mate.
        mate: i32,
    },
    /// Search started or stopped.
    State {
        /// Whether the search is running.
        running: bool,
    },
    /// Search progress.
    Info {
        /// Depth reached.
        depth: u8,
        /// Score.
        score: i32,
        /// Nodes searched.
        nodes: u64,
        /// Nodes per second.
        nps: u64,
        /// Time spent in ms.
        time: u64,
        /// Principal variation.
        pv: String,
    },
    /// A new depth was reached.
    Depth {
        /// The depth.
        val: u8,
    },
    /// The engine is ready.
    Ready,
}

} // verus!
