//! A move as a pair of squares, packed as `(from << 8) | to`.
use vstd::prelude::*;

verus! {

/// A move from square `from` to square `to`.
#[derive(Clone, Copy, Debug, Default, PartialEq, Eq, Hash, Structural)]
pub struct Move {
    /// Square the piece leaves.
    pub from: u8,
    /// Square the piece reaches.
    pub to: u8,
}

/// The 16-bit packing of a move: `from` in the high byte, `to` in the low.
pub open spec fn packed(from: u8, to: u8) -> u16 {
    (from as int * 256 + to as int) as u16
}

impl Move {
    /// The move `from` -> `to`.
    pub fn new(from: u8, to: u8) -> (r: Self)
        ensures
            r.from == from && r.to == to,
    {
        Self { from, to }
    }

    /// The null move (both squares 0).
    pub fn none() -> (r: Self)
        ensures
            r.from == 0 && r.to == 0,
    {
        Self { from: 0, to: 0 }
    }

    /// The move unpacked from `(from << 8) | to`.
    pub fn unpack(raw: u16) -> (r: Self)
        ensures
            r.from == raw / 256 && r.to == raw % 256,
            packed(r.from, r.to) == raw,
    {
        let from = (raw >> 8) as u8;
        let to = (raw & 0xFF) as u8;
        assert(raw >> 8u16 == raw / 256 && raw & 0xFFu16 == raw % 256) by (bit_vector);
        Self { from, to }
    }

    /// The move packed as `(from << 8) | to`.
    pub fn raw(&self) -> (r: u16)
        ensures
            r == packed(self.from, self.to),
    {
        let (f, t) = (self.from as u16, self.to as u16);
        assert(f < 256 && t < 256 ==> (f << 8u16) | t == f * 256 + t) by (bit_vector);
        (f << 8) | t
    }

    /// Whether both squares are on the board and differ.
    pub fn valid(&self) -> (r: bool)
        ensures
            r == (self.from < 90 && self.to < 90 && self.from != self.to),
    {
        self.from < 90 && self.to < 90 && self.from != self.to
    }
}

} // verus!
