//! One position as the GPU evaluator receives it: the grid, the kings, the
//! side to move, and the score written back.
use vstd::prelude::*;
use crate::board::Position;
use super::status::Status;

verus! {

/// Encoding a position into a sample and reading its score back.
pub trait Sampleable {
    /// Loads the grid and the side to move.
    fn encode(&mut self, grid: &[u8; 90], side: u8) -> Status;

    /// The score written back.
    fn score(&self) -> i32;

    /// Whether the side to move is a valid side.
    fn valid(&self) -> bool;

    /// Back to the empty sample.
    fn clear(&mut self);
}

/// A position sent to the GPU evaluator.
#[derive(Clone, Copy, Debug, PartialEq, Eq)]
pub struct Sample {
    /// Piece code on each square (14: empty).
    pub grid: [u8; 90],
    /// Square of each side's king.
    pub king: [u8; 2],
    /// Side to move (0: Red, 1: Black).
    pub side: u8,
    /// 1 once loaded.
    pub state: u8,
    /// Score in centipawns written back.
    pub score: i32,
    /// Place of the sample in its batch.
    pub index: u32,
    /// Zobrist hash.
    pub hash: u64,
    /// Padding.
    pub pad: [u8; 16],
}

/// The empty sample: every square empty, everything else zero.
pub open spec fn blank(s: Sample) -> bool {
    &&& forall|i: int| 0 <= i < 90 ==> #[trigger] s.grid[i] == 14
    &&& s.king[0] == 0 && s.king[1] == 0
    &&& s.side == 0 && s.state == 0 && s.score == 0 && s.index == 0 && s.hash == 0
}

impl Sample {
    /// The empty sample.
    pub fn new() -> (r: Self)
        ensures
            blank(r),
            forall|i: int| 0 <= i < 16 ==> #[trigger] r.pad[i] == 0,
    {
        Self {
            grid: [14; 90],
            king: [0; 2],
            side: 0,
            state: 0,
            score: 0,
            index: 0,
            hash: 0,
            pad: [0; 16],
        }
    }

    /// The sample of `pos`, numbered `index`, loaded and not yet scored.
    pub fn pack(pos: &Position, index: u32) -> (r: Self)
        ensures
            r.grid == pos.grid && r.king == pos.king && r.side == pos.side && r.hash == pos.hash,
            r.state == 1 && r.score == 0 && r.index == index,
    {
        Self {
            grid: pos.grid,
            king: pos.king,
            side: pos.side,
            state: 1,
            score: 0,
            index,
            hash: pos.hash,
            pad: [0; 16],
        }
    }

    /// The score written back.
    pub fn score(&self) -> (r: i32)
        ensures
            r == self.score,
    {
        self.score
    }

    /// Writes the score back.
    pub fn store(&mut self, score: i32)
        ensures
            *final(self) == (Sample { score, ..*old(self) }),
    {
        self.score = score;
    }

    /// Side to move.
    pub fn side(&self) -> (r: u8)
        ensures
            r == self.side,
    {
        self.side
    }

    /// The grid.
    pub fn grid(&self) -> (r: &[u8; 90])
        ensures
            *r == self.grid,
    {
        &self.grid
    }

    /// Loads `grid` and `side`, marking the sample loaded.
    pub fn load(&mut self, grid: &[u8; 90], side: u8)
        ensures
            *final(self) == (Sample { grid: *grid, side, state: 1, ..*old(self) }),
    {
        self.grid = *grid;
        self.side = side;
        self.state = 1;
    }

    /// Place in the batch.
    pub fn index(&self) -> (r: u32)
        ensures
            r == self.index,
    {
        self.index
    }

    /// Zobrist hash.
    pub fn hash(&self) -> (r: u64)
        ensures
            r == self.hash,
    {
        self.hash
    }

    /// Whether the side to move is 0 or 1.
    pub fn valid(&self) -> (r: bool)
        ensures
            r == (self.side < 2),
    {
        self.side < 2
    }

    /// Back to the empty sample, keeping the padding.
    pub fn clear(&mut self)
        ensures
            blank(*final(self)),
            final(self).pad == old(self).pad,
    {
        self.grid = [14; 90];
        self.king = [0; 2];
        self.side = 0;
        self.state = 0;
        self.score = 0;
        self.index = 0;
        self.hash = 0;
    }
}

impl Sampleable for Sample {
    /// A side other than 0 or 1 is a fault and changes nothing; otherwise
    /// the grid and side are loaded and the sample is ready.
    fn encode(&mut self, grid: &[u8; 90], side: u8) -> (r: Status)
        ensures
            side > 1 ==> r == Status::Fault && *final(self) == *old(self),
            side <= 1 ==> r == Status::Ready && *final(self) == (Sample {
                grid: *grid,
                side,
                state: 1,
                ..*old(self)
            }),
    {
        if side > 1 {
            return Status::Fault;
        }
        self.load(grid, side);
        Status::Ready
    }

    fn score(&self) -> (r: i32)
        ensures
            r == self.score,
    {
        self.score
    }

    fn valid(&self) -> (r: bool)
        ensures
            r == (self.side < 2),
    {
        self.side < 2
    }

    fn clear(&mut self)
        ensures
            blank(*final(self)),
            final(self).pad == old(self).pad,
    {
        Sample::clear(self);
    }
}

impl Default for Sample {
    fn default() -> (r: Self)
        ensures
            blank(r),
    {
        Self::new()
    }
}

} // verus!
