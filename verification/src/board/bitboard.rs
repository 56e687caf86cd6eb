//! A 90-square set held as two 45-bit halves: `low` for squares 0..44 and
//! `high` for squares 45..89.
use vstd::prelude::*;
use vstd::std_specs::bits::{u64_trailing_zeros, u64_leading_zeros, axiom_u64_trailing_zeros, axiom_u64_leading_zeros};
use super::square::Square;

verus! {

/// Mask of the 45 bits that one half of a bitboard uses.
pub const MASK45: u64 = 0x0000_1FFF_FFFF_FFFFu64;

/// Whether bit `i` of `w` is set.
pub open spec fn bit(w: u64, i: int) -> bool {
    0 <= i < 64 && (w >> (i as u64)) & 1u64 == 1u64
}

/// Number of set bits among bits `0..k` of `w`.
pub open spec fn ones_below(w: u64, k: nat) -> nat
    decreases k,
{
    if k == 0 {
        0
    } else {
        ones_below(w, (k - 1) as nat) + if bit(w, k - 1) {
            1nat
        } else {
            0nat
        }
    }
}

/// Number of set bits of `w`.
pub open spec fn ones(w: u64) -> nat {
    ones_below(w, 64)
}

/// The number of set bits of `w`, counted bit by bit.
fn count_ones(w: u64) -> (r: u32)
    ensures
        r == ones(w),
{
    let mut c: u32 = 0;
    let mut i: u64 = 0;
    while i < 64
        invariant
            i <= 64,
            c == ones_below(w, i as nat),
            c <= i,
        decreases 64 - i,
    {
        if (w >> i) & 1u64 == 1u64 {
            c = c + 1;
        }
        i = i + 1;
    }
    c
}

/// A set of board squares in two 45-bit halves.
#[derive(Debug, Clone, Copy, PartialEq, Eq, Hash, Default, Structural)]
pub struct Bitboard {
    pub low: u64,
    pub high: u64,
}

/// The half-word and bit position that square `sq` occupies.
pub open spec fn half_bit(b: Bitboard, sq: int) -> bool {
    if sq < 45 {
        bit(b.low, sq)
    } else {
        bit(b.high, sq - 45)
    }
}

/// A 45-bit mask for bit `i`.
pub open spec fn one(i: int) -> u64 {
    1u64 << (i as u64)
}

proof fn lemma_bit_set(w: u64, i: u64, j: u64)
    requires
        i < 64,
        j < 64,
    ensures
        bit(w | (1u64 << i), j as int) == (j == i || bit(w, j as int)),
        bit(w & !(1u64 << i), j as int) == (j != i && bit(w, j as int)),
        ((w & (1u64 << i)) != 0) == bit(w, i as int),
{
    assert(((w | (1u64 << i)) >> j) & 1u64 == 1u64 <==> (j == i || (w >> j) & 1u64 == 1u64))
        by (bit_vector)
        requires
            i < 64,
            j < 64,
    ;
    assert(((w & !(1u64 << i)) >> j) & 1u64 == 1u64 <==> (j != i && (w >> j) & 1u64 == 1u64))
        by (bit_vector)
        requires
            i < 64,
            j < 64,
    ;
    assert(((w & (1u64 << i)) != 0) <==> ((w >> i) & 1u64 == 1u64)) by (bit_vector)
        requires
            i < 64,
    ;
}

impl Bitboard {
    /// No bit beyond the 45 that each half uses is set.
    pub open spec fn clean(self) -> bool {
        self.low >> 45u64 == 0 && self.high >> 45u64 == 0
    }

    /// Whether square `sq` (0..89) is in the set.
    pub open spec fn has(self, sq: int) -> bool {
        half_bit(self, sq)
    }

    /// The empty set.
    pub fn new() -> (r: Self)
        ensures
            r.low == 0 && r.high == 0,
    {
        Self { low: 0, high: 0 }
    }

    /// The empty set.
    pub fn empty() -> (r: Self)
        ensures
            r.low == 0 && r.high == 0,
    {
        Self { low: 0, high: 0 }
    }

    /// Splits a 90-bit integer into the two 45-bit halves.
    pub fn from_u128(val: u128) -> (r: Self)
        ensures
            r.low == (val & 0x0000_1FFF_FFFF_FFFFu128) as u64,
            r.high == ((val >> 45u128) & 0x0000_1FFF_FFFF_FFFFu128) as u64,
    {
        Self {
            low: (val & 0x0000_1FFF_FFFF_FFFFu128) as u64,
            high: ((val >> 45u128) & 0x0000_1FFF_FFFF_FFFFu128) as u64,
        }
    }

    /// A bitboard from its two halves.
    pub fn from_raw(low: u64, high: u64) -> (r: Self)
        ensures
            r.low == low && r.high == high,
    {
        Self { low, high }
    }

    /// The set holding square `sq` alone.
    pub fn mask(sq: Square) -> (r: Self)
        requires
            sq.0 < 109,
        ensures
            sq.0 < 45 ==> r.low == one(sq.0 as int) && r.high == 0,
            sq.0 >= 45 ==> r.low == 0 && r.high == one(sq.0 - 45),
    {
        let idx = sq.0 as u64;
        if idx < 45 {
            Self { low: 1u64 << idx, high: 0 }
        } else {
            Self { low: 0, high: 1u64 << (idx - 45) }
        }
    }

    /// Adds square `sq` to the set.
    pub fn set(&mut self, sq: Square)
        requires
            sq.0 < 90,
        ensures
            sq.0 < 45 ==> final(self).low == old(self).low | one(sq.0 as int) && final(self).high
                == old(self).high,
            sq.0 >= 45 ==> final(self).high == old(self).high | one(sq.0 - 45) && final(self).low
                == old(self).low,
            forall|s: int| 0 <= s < 90 ==> #[trigger] final(self).has(s) == (s == sq.0 || old(self).has(s)),
            old(self).clean() ==> final(self).clean(),
    {
        let idx = sq.0 as u64;
        if idx < 45 {
            self.low = self.low | (1u64 << idx);
        } else {
            self.high = self.high | (1u64 << (idx - 45));
        }
        proof {
            if idx < 45 {
                lemma_set_clean(old(self).low, idx);
            } else {
                lemma_set_clean(old(self).high, (idx - 45) as u64);
            }
            assert forall|s: int| 0 <= s < 90 implies #[trigger] self.has(s) == (s == sq.0 || old(self).has(s)) by {
                if s < 45 && idx < 45 {
                    lemma_bit_set(old(self).low, idx, s as u64);
                } else if s >= 45 && idx >= 45 {
                    lemma_bit_set(old(self).high, (idx - 45) as u64, (s - 45) as u64);
                }
            }
        }
    }

    /// Adds square `idx` given as a plain index.
    pub fn set_unchecked(&mut self, idx: usize)
        requires
            idx < 90,
        ensures
            forall|s: int| 0 <= s < 90 ==> #[trigger] final(self).has(s) == (s == idx || old(self).has(s)),
            old(self).clean() ==> final(self).clean(),
    {
        self.set(Square(idx as u8));
    }

    /// Removes square `idx` given as a plain index.
    pub fn clear_unchecked(&mut self, idx: usize)
        requires
            idx < 90,
        ensures
            forall|s: int| 0 <= s < 90 ==> #[trigger] final(self).has(s) == (s != idx && old(self).has(s)),
            old(self).clean() ==> final(self).clean(),
    {
        self.clear(Square(idx as u8));
    }

    /// Whether square `idx`, given as a plain index, is in the set.
    pub fn test_unchecked(&self, idx: usize) -> (r: bool)
        requires
            idx < 90,
        ensures
            r == self.has(idx as int),
    {
        self.test(Square(idx as u8))
    }

    /// Removes square `sq` from the set.
    pub fn clear(&mut self, sq: Square)
        requires
            sq.0 < 90,
        ensures
            sq.0 < 45 ==> final(self).low == old(self).low & !one(sq.0 as int) && final(self).high
                == old(self).high,
            sq.0 >= 45 ==> final(self).high == old(self).high & !one(sq.0 - 45) && final(self).low
                == old(self).low,
            forall|s: int| 0 <= s < 90 ==> #[trigger] final(self).has(s) == (s != sq.0 && old(self).has(s)),
            old(self).clean() ==> final(self).clean(),
    {
        let idx = sq.0 as u64;
        if idx < 45 {
            self.low = self.low & !(1u64 << idx);
        } else {
            self.high = self.high & !(1u64 << (idx - 45));
        }
        proof {
            if idx < 45 {
                lemma_clear_clean(old(self).low, idx);
            } else {
                lemma_clear_clean(old(self).high, (idx - 45) as u64);
            }
            assert forall|s: int| 0 <= s < 90 implies #[trigger] self.has(s) == (s != sq.0 && old(self).has(s)) by {
                if s < 45 && idx < 45 {
                    lemma_bit_set(old(self).low, idx, s as u64);
                } else if s >= 45 && idx >= 45 {
                    lemma_bit_set(old(self).high, (idx - 45) as u64, (s - 45) as u64);
                }
            }
        }
    }

    /// Whether square `sq` is in the set.
    pub fn test(&self, sq: Square) -> (r: bool)
        requires
            sq.0 < 90,
        ensures
            r == self.has(sq.0 as int),
    {
        let idx = sq.0 as u64;
        proof {
            if idx < 45 {
                lemma_bit_set(self.low, idx, idx);
            } else {
                lemma_bit_set(self.high, (idx - 45) as u64, (idx - 45) as u64);
            }
        }
        if idx < 45 {
            (self.low & (1u64 << idx)) != 0
        } else {
            (self.high & (1u64 << (idx - 45))) != 0
        }
    }

    /// Whether the set is empty.
    pub fn is_empty(&self) -> (r: bool)
        ensures
            r == (self.low == 0 && self.high == 0),
    {
        proof {
            let (l, h) = (self.low, self.high);
            assert((l | h) == 0 <==> (l == 0 && h == 0)) by (bit_vector);
        }
        (self.low | self.high) == 0
    }

    /// Whether the set holds at least one square.
    pub fn active(&self) -> (r: bool)
        ensures
            r == !(self.low == 0 && self.high == 0),
    {
        proof {
            let (l, h) = (self.low, self.high);
            assert((l | h) == 0 <==> (l == 0 && h == 0)) by (bit_vector);
        }
        (self.low | self.high) != 0
    }

    /// Removes the lowest set bit and returns its square: bits of `low` count
    /// from 0, bits of `high` from 45. Returns `None` when the set is empty.
    pub fn pop(&mut self) -> (r: Option<Square>)
        ensures
            old(self).low != 0 ==> r == Some(Square(u64_trailing_zeros(old(self).low) as u8))
                && final(self).low == old(self).low & !one(u64_trailing_zeros(old(self).low) as int)
                && final(self).high == old(self).high,
            old(self).low == 0 && old(self).high != 0 ==> r == Some(
                Square((45 + u64_trailing_zeros(old(self).high)) as u8),
            ) && final(self).low == 0 && final(self).high == old(self).high & !one(
                u64_trailing_zeros(old(self).high) as int,
            ),
            old(self).low == 0 && old(self).high == 0 ==> r.is_none() && *final(self) == *old(self),
    {
        if self.low != 0 {
            let lsb = self.low.trailing_zeros();
            proof {
                lemma_clear_lowest(self.low);
            }
            self.low = self.low & (self.low - 1);
            Some(Square(lsb as u8))
        } else if self.high != 0 {
            let lsb = self.high.trailing_zeros();
            proof {
                lemma_clear_lowest(self.high);
            }
            self.high = self.high & (self.high - 1);
            Some(Square(45 + lsb as u8))
        } else {
            None
        }
    }

    /// Removes the lowest set bit and returns its square, as `pop` does; the
    /// set must not be empty.
    pub fn pop_unchecked(&mut self) -> (r: u8)
        requires
            old(self).low != 0 || old(self).high != 0,
        ensures
            old(self).low != 0 ==> r == u64_trailing_zeros(old(self).low) && final(self).low
                == old(self).low & !one(u64_trailing_zeros(old(self).low) as int) && final(self).high
                == old(self).high,
            old(self).low == 0 ==> r == 45 + u64_trailing_zeros(old(self).high) && final(self).low
                == 0 && final(self).high == old(self).high & !one(
                u64_trailing_zeros(old(self).high) as int,
            ),
    {
        if self.low != 0 {
            let lsb = self.low.trailing_zeros();
            proof {
                lemma_clear_lowest(self.low);
            }
            self.low = self.low & (self.low - 1);
            lsb as u8
        } else {
            let lsb = self.high.trailing_zeros();
            proof {
                lemma_clear_lowest(self.high);
            }
            self.high = self.high & (self.high - 1);
            45 + lsb as u8
        }
    }

    /// Square of the lowest set bit, or `None` when the set is empty.
    pub fn lsb(&self) -> (r: Option<Square>)
        ensures
            self.low != 0 ==> r == Some(Square(u64_trailing_zeros(self.low) as u8)),
            self.low == 0 && self.high != 0 ==> r == Some(
                Square((45 + u64_trailing_zeros(self.high)) as u8),
            ),
            self.low == 0 && self.high == 0 ==> r.is_none(),
    {
        if self.low != 0 {
            proof {
                axiom_u64_trailing_zeros(self.low);
            }
            let lsb = self.low.trailing_zeros() as u8;
            Some(Square(lsb))
        } else if self.high != 0 {
            proof {
                axiom_u64_trailing_zeros(self.high);
            }
            let lsb = self.high.trailing_zeros() as u8;
            Some(Square(45 + lsb))
        } else {
            None
        }
    }

    /// Square of the highest set bit, or `None` when the set is empty.
    pub fn msb(&self) -> (r: Option<Square>)
        ensures
            self.high != 0 ==> r == Some(Square((45 + 63 - u64_leading_zeros(self.high)) as u8)),
            self.high == 0 && self.low != 0 ==> r == Some(
                Square((63 - u64_leading_zeros(self.low)) as u8),
            ),
            self.low == 0 && self.high == 0 ==> r.is_none(),
    {
        if self.high != 0 {
            proof {
                axiom_u64_leading_zeros(self.high);
            }
            let msb = (63 - self.high.leading_zeros()) as u8;
            Some(Square(45 + msb))
        } else if self.low != 0 {
            proof {
                axiom_u64_leading_zeros(self.low);
            }
            let msb = (63 - self.low.leading_zeros()) as u8;
            Some(Square(msb))
        } else {
            None
        }
    }

    /// Index of the lowest set bit as `lsb` counts it; the set must not be empty.
    pub fn lsb_idx(&self) -> (r: usize)
        requires
            self.low != 0 || self.high != 0,
        ensures
            self.low != 0 ==> r == u64_trailing_zeros(self.low),
            self.low == 0 ==> r == 45 + u64_trailing_zeros(self.high),
    {
        if self.low != 0 {
            self.low.trailing_zeros() as usize
        } else {
            proof {
                axiom_u64_trailing_zeros(self.high);
            }
            45 + self.high.trailing_zeros() as usize
        }
    }

    /// Index of the highest set bit as `msb` counts it; the set must not be empty.
    pub fn msb_idx(&self) -> (r: usize)
        requires
            self.low != 0 || self.high != 0,
        ensures
            self.high != 0 ==> r == 45 + 63 - u64_leading_zeros(self.high),
            self.high == 0 ==> r == 63 - u64_leading_zeros(self.low),
    {
        if self.high != 0 {
            proof {
                axiom_u64_leading_zeros(self.high);
            }
            45 + (63 - self.high.leading_zeros()) as usize
        } else {
            proof {
                axiom_u64_leading_zeros(self.low);
            }
            (63 - self.low.leading_zeros()) as usize
        }
    }

    /// Number of set bits in both halves.
    pub fn count(&self) -> (r: u32)
        ensures
            r == ones(self.low) + ones(self.high),
    {
        proof {
            lemma_ones_bound(self.low);
            lemma_ones_bound(self.high);
        }
        count_ones(self.low) + count_ones(self.high)
    }

    /// Complement within the 45-bit halves.
    pub fn not(self) -> (r: Self)
        ensures
            r.low == !self.low & MASK45,
            r.high == !self.high & MASK45,
    {
        Self { low: !self.low & MASK45, high: !self.high & MASK45 }
    }

    /// Intersection.
    pub fn bitand(self, rhs: Self) -> (r: Self)
        ensures
            r.low == self.low & rhs.low,
            r.high == self.high & rhs.high,
    {
        Self { low: self.low & rhs.low, high: self.high & rhs.high }
    }

    /// Union.
    pub fn bitor(self, rhs: Self) -> (r: Self)
        ensures
            r.low == self.low | rhs.low,
            r.high == self.high | rhs.high,
    {
        Self { low: self.low | rhs.low, high: self.high | rhs.high }
    }

    /// Symmetric difference.
    pub fn bitxor(self, rhs: Self) -> (r: Self)
        ensures
            r.low == self.low ^ rhs.low,
            r.high == self.high ^ rhs.high,
    {
        Self { low: self.low ^ rhs.low, high: self.high ^ rhs.high }
    }
}

/// Clearing the lowest set bit with `x & (x - 1)` removes bit `trailing_zeros(x)`.
proof fn lemma_clear_lowest(x: u64)
    requires
        x != 0,
    ensures
        u64_trailing_zeros(x) < 64,
        x & ((x - 1) as u64) == x & !one(u64_trailing_zeros(x) as int),
{
    axiom_u64_trailing_zeros(x);
    let t = u64_trailing_zeros(x) as u64;
    let u = (64 - t) as u64;
    assert(x & ((x - 1) as u64) == x & !(1u64 << t)) by (bit_vector)
        requires
            x != 0,
            t < 64,
            (x >> t) & 1u64 == 1u64,
            x << u == 0,
            u == 64 - t,
    ;
}

proof fn lemma_set_clean(w: u64, i: u64)
    requires
        i < 64,
    ensures
        i < 45 && w >> 45u64 == 0 ==> (w | (1u64 << i)) >> 45u64 == 0,
{
    assert(i < 45 && w >> 45u64 == 0 ==> (w | (1u64 << i)) >> 45u64 == 0) by (bit_vector);
}

proof fn lemma_clear_clean(w: u64, i: u64)
    requires
        i < 64,
    ensures
        w >> 45u64 == 0 ==> (w & !(1u64 << i)) >> 45u64 == 0,
{
    assert(w >> 45u64 == 0 ==> (w & !(1u64 << i)) >> 45u64 == 0) by (bit_vector);
}

/// The zero word has no bit set.
pub proof fn lemma_bit_zero(i: int)
    ensures
        !bit(0, i),
{
    if 0 <= i < 64 {
        let j = i as u64;
        assert((0u64 >> j) & 1u64 == 0) by (bit_vector);
    }
}

/// Two words with the same bits are equal.
pub proof fn lemma_word_ext(a: u64, b: u64)
    requires
        forall|i: int| 0 <= i < 64 ==> #[trigger] bit(a, i) == bit(b, i),
    ensures
        a == b,
{
    if a != b {
        let x = a ^ b;
        assert(x != 0) by (bit_vector)
            requires
                a != b,
                x == a ^ b,
        ;
        axiom_u64_trailing_zeros(x);
        let t = u64_trailing_zeros(x) as u64;
        assert(bit(a, t as int) == bit(b, t as int));
        assert(((a >> t) & 1u64 == 1u64) != ((b >> t) & 1u64 == 1u64)) by (bit_vector)
            requires
                x == a ^ b,
                t < 64,
                (x >> t) & 1u64 == 1u64,
        ;
    }
}

/// Two clean bitboards holding the same squares are equal.
pub proof fn lemma_bitboard_ext(a: Bitboard, b: Bitboard)
    requires
        a.clean(),
        b.clean(),
        forall|s: int| 0 <= s < 90 ==> #[trigger] a.has(s) == b.has(s),
    ensures
        a == b,
{
    assert forall|i: int| 0 <= i < 64 implies #[trigger] bit(a.low, i) == bit(b.low, i) by {
        if i < 45 {
            assert(a.has(i) == b.has(i));
        } else {
            let (x, y, j) = (a.low, b.low, i as u64);
            assert(x >> 45u64 == 0 && y >> 45u64 == 0 && 45 <= j < 64 ==> (x >> j) & 1u64 == 0 && (y >> j) & 1u64 == 0) by (bit_vector);
        }
    }
    assert forall|i: int| 0 <= i < 64 implies #[trigger] bit(a.high, i) == bit(b.high, i) by {
        if i < 45 {
            assert(a.has(i + 45) == b.has(i + 45));
        } else {
            let (x, y, j) = (a.high, b.high, i as u64);
            assert(x >> 45u64 == 0 && y >> 45u64 == 0 && 45 <= j < 64 ==> (x >> j) & 1u64 == 0 && (y >> j) & 1u64 == 0) by (bit_vector);
        }
    }
    lemma_word_ext(a.low, b.low);
    lemma_word_ext(a.high, b.high);
}

/// At most `k` of the bits `0..k` are set.
proof fn lemma_ones_below_bound(w: u64, k: nat)
    ensures
        ones_below(w, k) <= k,
    decreases k,
{
    if k > 0 {
        lemma_ones_below_bound(w, (k - 1) as nat);
    }
}

/// A 64-bit word has at most 64 set bits.
proof fn lemma_ones_bound(w: u64)
    ensures
        ones(w) <= 64,
{
    lemma_ones_below_bound(w, 64);
}

} // verus!
