//! What a move changes, kept so that the move can be taken back.
use vstd::prelude::*;

verus! {

/// The fields of a position that a move overwrites.
#[derive(Clone, Copy, Debug, Default, PartialEq, Eq, Hash, Structural)]
pub struct State {
    /// Code of the piece captured by the move (14: none).
    pub captured: u8,
    /// Code of the piece captured by the move before.
    pub prev: u8,
    /// Check flag before the move.
    pub check: u8,
    /// Padding byte.
    pub pad: u8,
    /// Half-move clock before the move.
    pub rule: u16,
    /// Ply counter before the move.
    pub ply: u16,
    /// Zobrist hash before the move.
    pub hash: u64,
}

impl State {
    /// A record holding the given fields, with a zero pad byte.
    pub fn new(captured: u8, prev: u8, check: u8, rule: u16, ply: u16, hash: u64) -> (r: Self)
        ensures
            r == (State { captured, prev, check, pad: 0, rule, ply, hash }),
    {
        Self { captured, prev, check, rule, ply, pad: 0, hash }
    }

    /// The record of the start of a game: nothing captured, ply 1.
    pub fn empty() -> (r: Self)
        ensures
            r == (State { captured: 14, prev: 14, check: 0, pad: 0, rule: 0, ply: 1, hash: 0 }),
    {
        Self { captured: 14, prev: 14, check: 0, rule: 0, ply: 1, pad: 0, hash: 0 }
    }
}

} // verus!
