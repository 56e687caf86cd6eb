//! Squares of the 9-file, 10-rank xiangqi board, indexed `rank * 9 + file`.
use vstd::prelude::*;

verus! {

/// A board square: the linear index `rank * 9 + file` (0..89 on the board).
#[derive(Clone, Copy, Debug, PartialEq, Eq, PartialOrd, Ord, Hash, Structural)]
pub struct Square(pub u8);

/// File (column, 0..8) of a linear square index.
pub open spec fn file_of(sq: int) -> int {
    sq % 9
}

/// Rank (row, 0..9) of a linear square index.
pub open spec fn rank_of(sq: int) -> int {
    sq / 9
}

/// The square mirrored top to bottom (same file, rank `9 - rank`); squares off
/// the board are left unchanged.
pub open spec fn flip_of(sq: int) -> int {
    if sq >= 90 {
        sq
    } else {
        (9 - rank_of(sq)) * 9 + file_of(sq)
    }
}

impl Square {
    /// The square on file `file` and rank `rank`.
    pub fn new(file: u8, rank: u8) -> (r: Self)
        requires
            rank * 9 + file <= u8::MAX,
        ensures
            r.0 == rank * 9 + file,
    {
        Self(rank * 9 + file)
    }

    /// File (column) of the square.
    pub fn file(self) -> (r: u8)
        ensures
            r == file_of(self.0 as int),
    {
        self.0 % 9
    }

    /// Rank (row) of the square.
    pub fn rank(self) -> (r: u8)
        ensures
            r == rank_of(self.0 as int),
    {
        self.0 / 9
    }

    /// The square as an array index.
    pub fn index(self) -> (r: usize)
        ensures
            r == self.0,
    {
        self.0 as usize
    }

    /// Whether the square lies on the board (index below 90).
    pub fn valid(self) -> (r: bool)
        ensures
            r == (self.0 < 90),
    {
        self.0 < 90
    }

    /// The square seen from Black's side: same file, rank `9 - rank`.
    /// A square off the board is returned unchanged.
    pub fn flip(self) -> (r: Self)
        ensures
            r.0 == flip_of(self.0 as int),
            self.0 < 90 ==> r.0 < 90,
    {
        if self.0 >= 90 {
            return self;
        }
        Self::new(self.file(), 9 - self.rank())
    }
}

/// Flipping twice gives back the square.
pub proof fn lemma_flip_involutive(sq: int)
    requires
        0 <= sq,
    ensures
        flip_of(flip_of(sq)) == sq,
{
}

} // verus!
