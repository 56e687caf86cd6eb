//! A 512-entry accumulator updated by adding one row and subtracting
//! another, with 16-bit wrapping arithmetic.
use vstd::prelude::*;
use super::accum::{wrap16, lemma_wrapping_add, lemma_wrapping_sub, lemma_wrap16_add_inner};

verus! {

/// The 512 hidden-layer sums.
#[derive(Debug, Clone, Copy, PartialEq, Eq)]
pub struct Accumulator {
    /// The sums.
    pub values: [i16; 512],
}

impl Accumulator {
    /// All zero.
    pub fn new() -> (r: Self)
        ensures
            forall|i: int| 0 <= i < 512 ==> #[trigger] r.values[i] == 0,
    {
        Self { values: [0i16; 512] }
    }

    /// Adds `add_weights` and subtracts `sub_weights`, entry by entry,
    /// wrapping.
    pub fn update(&mut self, add_weights: &[i16; 512], sub_weights: &[i16; 512])
        ensures
            forall|i: int|
                0 <= i < 512 ==> #[trigger] final(self).values[i] == wrap16(old(self).values[i] + add_weights@[i] - sub_weights@[i]),
    {
        let mut i: usize = 0;
        while i < 512
            invariant
                i <= 512,
                forall|k: int| 0 <= k < i ==> #[trigger] self.values[k] == wrap16(old(self).values[k] + add_weights@[k] - sub_weights@[k]),
                forall|k: int| i <= k < 512 ==> #[trigger] self.values[k] == old(self).values[k],
            decreases 512 - i,
        {
            let x = self.values[i];
            let y = x.wrapping_add(add_weights[i]);
            proof {
                lemma_wrapping_add(x, add_weights@[i as int]);
                lemma_wrapping_sub(y, sub_weights@[i as int]);
                lemma_wrap16_add_inner(x + add_weights@[i as int], -sub_weights@[i as int]);
            }
            self.values[i] = y.wrapping_sub(sub_weights[i]);
            i += 1;
        }
    }
}

impl Default for Accumulator {
    /// All zero.
    fn default() -> (r: Self)
        ensures
            forall|i: int| 0 <= i < 512 ==> #[trigger] r.values[i] == 0,
    {
        Self::new()
    }
}

/// Adding a row and then taking it back gives the sums back: an `update`
/// with `add`, `sub` followed by one with `sub`, `add` restores every entry.
pub proof fn lemma_update_undone(before: Seq<i16>, mid: Seq<i16>, after: Seq<i16>, add: Seq<i16>, sub: Seq<i16>)
    requires
        before.len() == 512 && mid.len() == 512 && after.len() == 512 && add.len() == 512 && sub.len() == 512,
        forall|i: int| 0 <= i < 512 ==> #[trigger] mid[i] == wrap16(before[i] + add[i] - sub[i]),
        forall|i: int| 0 <= i < 512 ==> #[trigger] after[i] == wrap16(mid[i] + sub[i] - add[i]),
    ensures
        after == before,
{
    assert forall|i: int| 0 <= i < 512 implies #[trigger] after[i] == before[i] by {
        super::accum::lemma_wrap16_add_inner(before[i] + add[i] - sub[i], sub[i] - add[i]);
        super::accum::lemma_wrap16_id(before[i]);
        assert(mid[i] + sub[i] - add[i] == wrap16(before[i] + add[i] - sub[i]) + (sub[i] - add[i]));
    }
    assert(after =~= before);
}

} // verus!
