//! Feature indices of the network: a (king square, piece, square) triple
//! seen from one side, folded so that the king stands on the left half.
use vstd::prelude::*;
use crate::board::square::{Square, flip_of};

verus! {

/// Number of feature indices.
pub const TOTAL: usize = 65536;

/// The square mirrored left to right (file `8 - file`).
pub open spec fn mirror_of(sq: int) -> int {
    (sq / 9) * 9 + (8 - sq % 9)
}

/// The feature index of `king`, `piece`, `square` for `side` seen from
/// `view`: from the other side the piece changes colour and both squares
/// flip top to bottom; a king on files 5..8 mirrors both squares; the index
/// is `(row * 5 + col) * 1260 + piece * 90 + target` for the folded king
/// square `row * 9 + col` and target square.
pub open spec fn index_of(king: u8, piece: u8, square: u8, side: u8, view: u8) -> int {
    let (k, p, s) = if side == view {
        (king as int, piece as int, square as int)
    } else {
        (flip_of(king as int), if piece < 7 {
            piece + 7
        } else {
            piece - 7
        }, flip_of(square as int))
    };
    let (norm, target) = if k % 9 > 4 {
        (mirror_of(k), mirror_of(s))
    } else {
        (k, s)
    };
    ((norm / 9) * 5 + norm % 9) * 1260 + p * 90 + target
}

/// The byte arithmetic of `index` stays in range: when the (possibly
/// flipped) king stands on files 5..8, the mirrored target square fits in a
/// byte.
pub open spec fn index_fits(king: u8, square: u8, side: u8, view: u8) -> bool {
    let (k, s) = if side == view {
        (king as int, square as int)
    } else {
        (flip_of(king as int), flip_of(square as int))
    };
    k % 9 > 4 ==> mirror_of(s) <= 255
}

/// Feature index computations.
pub struct Feature;

impl Feature {
    /// The square seen from Black's side (rank `9 - rank`); squares off the
    /// board stay as they are.
    pub fn flip(square: u8) -> (r: u8)
        ensures
            r == flip_of(square as int),
    {
        Square(square).flip().0
    }

    /// The square mirrored left to right (file `8 - file`).
    pub fn mirror(square: u8) -> (r: u8)
        requires
            mirror_of(square as int) <= 255,
        ensures
            r == mirror_of(square as int),
    {
        let file = square % 9;
        let rank = square / 9;
        rank * 9 + (8 - file)
    }

    /// The feature index of `king`, `piece`, `square` for `side` seen from
    /// `view`.
    pub fn index(king: u8, piece: u8, square: u8, side: u8, view: u8) -> (r: usize)
        requires
            side != view ==> piece <= 248,
            index_fits(king, square, side, view),
        ensures
            r == index_of(king, piece, square, side, view),
    {
        let (king, piece, square) = if side == view {
            (king, piece, square)
        } else {
            let swapped = if piece < 7 {
                piece + 7
            } else {
                piece - 7
            };
            (Self::flip(king), swapped, Self::flip(square))
        };
        let file = king % 9;
        let rank = king / 9;
        let tf = square % 9;
        let tr = square / 9;
        let (norm, target) = if file > 4 {
            let norm = rank * 9 + (8 - file);
            let target = tr * 9 + (8 - tf);
            (norm, target)
        } else {
            (king, square)
        };
        let col = norm % 9;
        let row = norm / 9;
        let base = row * 5 + col;
        (base as usize) * 1260 + (piece as usize) * 90 + (target as usize)
    }
}

} // verus!
