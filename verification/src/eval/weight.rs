//! Network weights: the accumulator bias and the per-feature rows. Every
//! feature row is zero in this build.
use vstd::prelude::*;

verus! {

/// Number of feature indices.
pub const TOTAL: usize = 65536;
/// Width of one accumulator half.
pub const DIM: usize = 256;

/// A feature row: all zeros.
pub open spec fn zero_row() -> Seq<i16> {
    Seq::new(256, |i: int| 0i16)
}

/// Accumulator bias and feature rows.
#[derive(Clone, Debug)]
pub struct Weight {
    /// Bias of each accumulator entry.
    pub bias: [i16; DIM],
}

impl Weight {
    /// Zero bias.
    pub fn new() -> (r: Self)
        ensures
            forall|i: int| 0 <= i < 256 ==> #[trigger] r.bias[i] == 0,
    {
        Self { bias: [0; DIM] }
    }

    /// The row of feature `index`: zeros for every index.
    pub fn feature(&self, index: usize) -> (r: [i16; DIM])
        ensures
            r@ == zero_row(),
    {
        let r = [0i16; DIM];
        assert(r@ =~= zero_row());
        r
    }
}

impl Default for Weight {
    /// Zero bias.
    fn default() -> (r: Self)
        ensures
            forall|i: int| 0 <= i < 256 ==> #[trigger] r.bias[i] == 0,
    {
        Self::new()
    }
}

} // verus!
