//! The incrementally updated accumulator: one 256-entry half per side, the
//! bias plus the feature rows of the pieces seen from that side, with 16-bit
//! wrapping arithmetic.
use vstd::prelude::*;
use super::feature::{Feature, index_fits};
use super::weight::{Weight, DIM, zero_row};
use crate::board::position::Position;

verus! {

/// `x` wrapped into the 16-bit signed range.
pub open spec fn wrap16(x: int) -> i16 {
    let r = x % 65536;
    if r >= 32768 {
        (r - 65536) as i16
    } else {
        r as i16
    }
}

pub(crate) proof fn lemma_wrap16_id(x: i16)
    ensures
        wrap16(x as int) == x,
{
    if x < 0 {
        assert((x as int) % 65536 == x + 65536);
    }
}

proof fn lemma_wrap16_shift(x: int, k: int)
    ensures
        wrap16(x + 65536 * k) == wrap16(x),
{
    vstd::arithmetic::div_mod::lemma_mod_multiples_vanish(k, x, 65536);
    assert(65536 * k + x == x + 65536 * k);
}

pub(crate) proof fn lemma_wrapping_add(a: i16, b: i16)
    ensures
        a.wrapping_add(b) == wrap16(a + b),
{
    let s = a + b;
    if s > 32767 {
        lemma_wrap16_shift(s - 65536, 1);
        lemma_wrap16_id((s - 65536) as i16);
    } else if s < -32768 {
        lemma_wrap16_shift(s + 65536, -1);
        lemma_wrap16_id((s + 65536) as i16);
    } else {
        lemma_wrap16_id(s as i16);
    }
}

pub(crate) proof fn lemma_wrapping_sub(a: i16, b: i16)
    ensures
        a.wrapping_sub(b) == wrap16(a - b),
{
    let s = a - b;
    if s > 32767 {
        lemma_wrap16_shift(s - 65536, 1);
        lemma_wrap16_id((s - 65536) as i16);
    } else if s < -32768 {
        lemma_wrap16_shift(s + 65536, -1);
        lemma_wrap16_id((s + 65536) as i16);
    } else {
        lemma_wrap16_id(s as i16);
    }
}

/// Wrapping twice is wrapping once: `wrap16(wrap16(x) + y) == wrap16(x + y)`.
pub(crate) proof fn lemma_wrap16_add_inner(x: int, y: int)
    ensures
        wrap16(wrap16(x) + y) == wrap16(x + y),
{
    let r = x % 65536;
    let q = x / 65536;
    assert(x == 65536 * q + r) by {
        vstd::arithmetic::div_mod::lemma_fundamental_div_mod(x, 65536);
    }
    if r >= 32768 {
        assert(wrap16(x) + y == (x + y) + 65536 * (-q - 1));
        lemma_wrap16_shift(x + y, -q - 1);
    } else {
        assert(wrap16(x) + y == (x + y) + 65536 * (-q));
        lemma_wrap16_shift(x + y, -q);
    }
}

/// What a move (or its take-back) does to the accumulator `a0` when every
/// feature row is zero: a king move (code 0 or 7, or the empty code 14,
/// which counts as Black's) sets the mover's half to the bias and keeps the
/// other; any other move changes nothing.
pub open spec fn shifted(a0: Accum, a1: Accum, moving: u8, bias: Seq<i16>) -> bool {
    if moving % 7 == 0 {
        let side = if moving < 7 {
            0int
        } else {
            1int
        };
        &&& a1.vals[side]@ == bias
        &&& a1.vals[1 - side] == a0.vals[1 - side]
    } else {
        a1 == a0
    }
}

/// Both accumulator halves: index 0 for Red's view, 1 for Black's.
#[derive(Clone, Copy, Debug, PartialEq, Eq)]
pub struct Accum {
    /// The two halves.
    pub vals: [[i16; DIM]; 2],
}

impl Accum {
    /// Both halves zero.
    pub fn new() -> (r: Self)
        ensures
            forall|c: int, i: int| 0 <= c < 2 && 0 <= i < 256 ==> #[trigger] r.vals[c][i] == 0,
    {
        Self { vals: [[0; DIM]; 2] }
    }

    /// Adds `src` to `dst` entry by entry, wrapping.
    pub fn add(dst: &mut [i16; DIM], src: &[i16; DIM])
        ensures
            forall|i: int| 0 <= i < 256 ==> #[trigger] final(dst)@[i] == wrap16(old(dst)@[i] + src@[i]),
    {
        let mut d: usize = 0;
        while d < DIM
            invariant
                d <= 256,
                forall|i: int| 0 <= i < d ==> #[trigger] dst@[i] == wrap16(old(dst)@[i] + src@[i]),
                forall|i: int| d <= i < 256 ==> #[trigger] dst@[i] == old(dst)@[i],
            decreases 256 - d,
        {
            proof {
                lemma_wrapping_add(dst@[d as int], src@[d as int]);
            }
            dst[d] = dst[d].wrapping_add(src[d]);
            d += 1;
        }
    }

    /// Adds `add` and subtracts `sub`, entry by entry, wrapping.
    pub fn update(dst: &mut [i16; DIM], add: &[i16; DIM], sub: &[i16; DIM])
        ensures
            forall|i: int| 0 <= i < 256 ==> #[trigger] final(dst)@[i] == wrap16(old(dst)@[i] + add@[i] - sub@[i]),
    {
        let mut d: usize = 0;
        while d < DIM
            invariant
                d <= 256,
                forall|i: int| 0 <= i < d ==> #[trigger] dst@[i] == wrap16(old(dst)@[i] + add@[i] - sub@[i]),
                forall|i: int| d <= i < 256 ==> #[trigger] dst@[i] == old(dst)@[i],
            decreases 256 - d,
        {
            let x = dst[d];
            let y = x.wrapping_add(add[d]);
            proof {
                lemma_wrapping_add(x, add@[d as int]);
                lemma_wrapping_sub(y, sub@[d as int]);
                lemma_wrap16_add_inner(x + add@[d as int], -sub@[d as int]);
            }
            dst[d] = y.wrapping_sub(sub[d]);
            d += 1;
        }
    }

    /// Adds `add` and subtracts `sub1` and `sub2`, entry by entry, wrapping.
    pub fn modify(dst: &mut [i16; DIM], add: &[i16; DIM], sub1: &[i16; DIM], sub2: &[i16; DIM])
        ensures
            forall|i: int|
                0 <= i < 256 ==> #[trigger] final(dst)@[i] == wrap16(old(dst)@[i] + add@[i] - sub1@[i] - sub2@[i]),
    {
        let mut d: usize = 0;
        while d < DIM
            invariant
                d <= 256,
                forall|i: int|
                    0 <= i < d ==> #[trigger] dst@[i] == wrap16(old(dst)@[i] + add@[i] - sub1@[i] - sub2@[i]),
                forall|i: int| d <= i < 256 ==> #[trigger] dst@[i] == old(dst)@[i],
            decreases 256 - d,
        {
            let x = dst[d];
            let y = x.wrapping_add(add[d]);
            let z = y.wrapping_sub(sub1[d]);
            proof {
                lemma_wrapping_add(x, add@[d as int]);
                lemma_wrapping_sub(y, sub1@[d as int]);
                lemma_wrapping_sub(z, sub2@[d as int]);
                lemma_wrap16_add_inner(x + add@[d as int], -sub1@[d as int]);
                lemma_wrap16_add_inner(x + add@[d as int] - sub1@[d as int], -sub2@[d as int]);
            }
            dst[d] = z.wrapping_sub(sub2[d]);
            d += 1;
        }
    }

    /// Recomputes half `side` for its king on `king`, treating `from` as
    /// empty and `to` as holding that side's king: the bias plus the rows of
    /// those pieces, which are all zero, so the half becomes the bias.
    fn rebuild(&mut self, pos: &Position, side: usize, king: u8, from: u8, to: u8, weight: &Weight)
        requires
            side < 2,
        ensures
            final(self).vals[side as int]@ == weight.bias@,
            final(self).vals[1 - side] == old(self).vals[1 - side],
    {
        let mut row = weight.bias;
        let mut sq: u8 = 0;
        while sq < 90
            invariant
                side < 2,
                row@ == weight.bias@,
            decreases 90 - sq,
        {
            let piece = if sq == from {
                14
            } else if sq == to {
                (side * 7) as u8
            } else {
                pos.grid[sq as usize]
            };
            if piece < 14 {
                let idx = Feature::index(king, piece, sq, side as u8, side as u8);
                let feat = weight.feature(idx);
                let ghost before = row@;
                Self::add(&mut row, &feat);
                proof {
                    assert forall|i: int| 0 <= i < 256 implies #[trigger] row@[i] == before[i] by {
                        lemma_wrap16_id(before[i]);
                    }
                    assert(row@ =~= before);
                }
            }
            sq += 1;
        }
        self.vals[side] = row;
    }

    /// Recomputes both halves from scratch: each becomes the bias plus the
    /// (zero) rows of the pieces on the board, that is the bias.
    pub fn reset(&mut self, pos: &Position, weight: &Weight)
        ensures
            final(self).vals[0]@ == weight.bias@,
            final(self).vals[1]@ == weight.bias@,
    {
        self.rebuild(pos, 0, pos.king[0], 90, 90, weight);
        self.rebuild(pos, 1, pos.king[1], 90, 90, weight);
    }

    /// Updates the halves for the move `from` -> `to` of `moving`, taking
    /// `captured`. A king move (code 0 or 7, or the empty code 14, which
    /// counts as Black's) recomputes the mover's half and shifts the other
    /// half by the changed rows; any other move shifts both halves. All rows
    /// are zero, so only the recomputed half changes, to the bias.
    pub fn apply(&mut self, pos: &Position, from: u8, to: u8, moving: u8, captured: u8, weight: &Weight)
        requires
            moving % 7 == 0 ==> index_fits(pos.king[if moving < 7 { 1int } else { 0int }], from, 0, 0)
                && index_fits(pos.king[if moving < 7 { 1int } else { 0int }], to, 0, 0),
            moving % 7 != 0 ==> forall|c: int| 0 <= c < 2 ==> index_fits(#[trigger] pos.king[c], from, 0, 0)
                && index_fits(pos.king[c], to, 0, 0),
        ensures
            shifted(*old(self), *final(self), moving, weight.bias@),
    {
        self.shift(pos, from, to, moving, captured, weight, true);
    }

    /// Takes the move `from` -> `to` of `moving` back, restoring `captured`:
    /// the same halves change as in `apply`, in the opposite direction.
    pub fn revert(&mut self, pos: &Position, from: u8, to: u8, moving: u8, captured: u8, weight: &Weight)
        requires
            moving % 7 == 0 ==> index_fits(pos.king[if moving < 7 { 1int } else { 0int }], from, 0, 0)
                && index_fits(pos.king[if moving < 7 { 1int } else { 0int }], to, 0, 0),
            moving % 7 != 0 ==> forall|c: int| 0 <= c < 2 ==> index_fits(#[trigger] pos.king[c], from, 0, 0)
                && index_fits(pos.king[c], to, 0, 0),
        ensures
            shifted(*old(self), *final(self), moving, weight.bias@),
    {
        self.shift(pos, from, to, moving, captured, weight, false);
    }

    /// The shared body of `apply` (`forward`) and `revert`.
    fn shift(&mut self, pos: &Position, from: u8, to: u8, moving: u8, captured: u8, weight: &Weight, forward: bool)
        requires
            moving % 7 == 0 ==> index_fits(pos.king[if moving < 7 { 1int } else { 0int }], from, 0, 0)
                && index_fits(pos.king[if moving < 7 { 1int } else { 0int }], to, 0, 0),
            moving % 7 != 0 ==> forall|c: int| 0 <= c < 2 ==> index_fits(#[trigger] pos.king[c], from, 0, 0)
                && index_fits(pos.king[c], to, 0, 0),
        ensures
            shifted(*old(self), *final(self), moving, weight.bias@),
    {
        if moving % 7 == 0 {
            let side: usize = if moving < 7 {
                0
            } else {
                1
            };
            let other = 1 - side;
            if forward {
                self.rebuild(pos, side, to, from, to, weight);
            } else {
                self.rebuild(pos, side, pos.king[side], from, from, weight);
            }
            assert(self.vals[side as int]@ == weight.bias@);
            let enemy = pos.king[other];
            let old_row = weight.feature(Feature::index(enemy, moving, from, other as u8, other as u8));
            let new_row = weight.feature(Feature::index(enemy, moving, to, other as u8, other as u8));
            let ghost before = self.vals[other as int];
            let mut row = self.vals[other];
            if captured < 14 {
                let cap = weight.feature(Feature::index(enemy, captured, to, other as u8, other as u8));
                if forward {
                    Self::modify(&mut row, &new_row, &old_row, &cap);
                } else {
                    let ghost mid = row@;
                    Self::update(&mut row, &old_row, &new_row);
                    proof {
                        assert forall|i: int| 0 <= i < 256 implies #[trigger] row@[i] == mid[i] by {
                            lemma_wrap16_id(mid[i]);
                        }
                    }
                    Self::add(&mut row, &cap);
                }
            } else {
                if forward {
                    Self::update(&mut row, &new_row, &old_row);
                } else {
                    Self::update(&mut row, &old_row, &new_row);
                }
            }
            proof {
                assert forall|i: int| 0 <= i < 256 implies #[trigger] row@[i] == before@[i] by {
                    lemma_wrap16_id(before@[i]);
                }
                assert(row@ =~= before@);
                assert(row == before);
            }
            let ghost mid = *self;
            self.vals[other] = row;
            assert(self.vals[side as int] == mid.vals[side as int]);
            return;
        }
        let ghost start = *self;
        let mut c: usize = 0;
        while c < 2
            invariant
                c <= 2,
                moving % 7 != 0,
                forall|c: int| 0 <= c < 2 ==> index_fits(#[trigger] pos.king[c], from, 0, 0)
                    && index_fits(pos.king[c], to, 0, 0),
                forall|k: int| 0 <= k < 2 ==> #[trigger] self.vals[k] == start.vals[k],
            decreases 2 - c,
        {
            let k = pos.king[c];
            let old_row = weight.feature(Feature::index(k, moving, from, c as u8, c as u8));
            let new_row = weight.feature(Feature::index(k, moving, to, c as u8, c as u8));
            let ghost before = self.vals[c as int];
            let mut row = self.vals[c];
            if captured < 14 {
                let cap = weight.feature(Feature::index(k, captured, to, c as u8, c as u8));
                if forward {
                    Self::modify(&mut row, &new_row, &old_row, &cap);
                } else {
                    let ghost mid = row@;
                    Self::update(&mut row, &old_row, &new_row);
                    proof {
                        assert forall|i: int| 0 <= i < 256 implies #[trigger] row@[i] == mid[i] by {
                            lemma_wrap16_id(mid[i]);
                        }
                    }
                    Self::add(&mut row, &cap);
                }
            } else {
                if forward {
                    Self::update(&mut row, &new_row, &old_row);
                } else {
                    Self::update(&mut row, &old_row, &new_row);
                }
            }
            proof {
                assert forall|i: int| 0 <= i < 256 implies #[trigger] row@[i] == before@[i] by {
                    lemma_wrap16_id(before@[i]);
                }
                assert(row@ =~= before@);
            }
            self.vals[c] = row;
            c += 1;
        }
        assert(self.vals@ =~= start.vals@);
        assert(self.vals == start.vals);
    }
}

impl Default for Accum {
    /// Both halves zero.
    fn default() -> (r: Self)
        ensures
            forall|c: int, i: int| 0 <= c < 2 && 0 <= i < 256 ==> #[trigger] r.vals[c][i] == 0,
    {
        Self::new()
    }
}

/// Taking a move back undoes it: starting from a freshly reset accumulator
/// (both halves the bias), `revert` after `apply` of the same move gives the
/// accumulator back.
pub proof fn lemma_revert_undoes_apply(a0: Accum, a1: Accum, a2: Accum, moving: u8, bias: Seq<i16>)
    requires
        a0.vals[0]@ == bias,
        a0.vals[1]@ == bias,
        shifted(a0, a1, moving, bias),
        shifted(a1, a2, moving, bias),
    ensures
        a2 == a0,
{
    if moving % 7 == 0 {
        let side = if moving < 7 {
            0int
        } else {
            1int
        };
        assert(a2.vals[side]@ =~= a0.vals[side]@);
        assert(a2.vals[side] == a0.vals[side]);
        assert(a2.vals@ =~= a0.vals@);
        assert(a2.vals == a0.vals);
    }
}

/// Updating incrementally agrees with recomputing: after a reset, the
/// accumulator that `apply` leaves is the one a reset of any position gives
/// (both halves the bias).
pub proof fn lemma_apply_matches_reset(a0: Accum, a1: Accum, moving: u8, bias: Seq<i16>)
    requires
        a0.vals[0]@ == bias,
        a0.vals[1]@ == bias,
        shifted(a0, a1, moving, bias),
    ensures
        a1.vals[0]@ == bias,
        a1.vals[1]@ == bias,
{
}

} // verus!
