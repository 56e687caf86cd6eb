//! Magic-multiplication move tables: per square, a mask of the squares that
//! can block, a multiplier and a shift turn the occupancy into an index into
//! a shared table of move sets.
use vstd::prelude::*;
use super::bitboard::Bitboard;
use super::zobrist::wmul;

verus! {

/// The hashing parameters of one square.
#[derive(Clone, Copy, Debug, Default, PartialEq, Eq, Structural)]
pub struct Magic {
    /// Squares whose occupancy matters.
    pub mask: u64,
    /// Multiplier.
    pub magic: u64,
    /// Start of this square's slice of the table.
    pub offset: usize,
    /// Right shift applied to the product.
    pub shift: u8,
}

/// The table index of occupancy `occupied` under `m`:
/// `offset + ((occupied & mask) * magic mod 2^64) >> shift`.
pub open spec fn magic_index(m: Magic, occupied: u64) -> int {
    m.offset + (wmul(occupied & m.mask, m.magic) >> m.shift)
}

impl Magic {
    /// All-zero parameters.
    pub fn new() -> (r: Self)
        ensures
            r == (Magic { mask: 0, magic: 0, offset: 0, shift: 0 }),
    {
        Magic { mask: 0, magic: 0, offset: 0, shift: 0 }
    }

    /// The table index of occupancy `occupied`.
    pub fn index(&self, occupied: u64) -> (r: usize)
        requires
            self.shift < 64,
            magic_index(*self, occupied) <= usize::MAX,
        ensures
            r == magic_index(*self, occupied),
    {
        let blocked = occupied & self.mask;
        let product = blocked.wrapping_mul(self.magic);
        let shifted = product >> self.shift;
        self.offset + shifted as usize
    }
}

/// Move sets of all squares, found through their magic parameters.
#[derive(Clone, Debug)]
pub struct Table {
    /// Parameters per square.
    pub magics: [Magic; 90],
    /// The shared table of move sets.
    pub entries: Vec<Bitboard>,
}

impl Default for Table {
    /// A table with zero parameters and no entries.
    fn default() -> (r: Self)
        ensures
            forall|s: int| 0 <= s < 90 ==> #[trigger] r.magics[s] == (Magic { mask: 0, magic: 0, offset: 0, shift: 0 }),
            r.entries@.len() == 0,
    {
        Table { magics: [Magic::new(); 90], entries: Vec::new() }
    }
}

impl Table {
    /// A table with zero parameters and no entries.
    pub fn new() -> (r: Self)
        ensures
            forall|s: int| 0 <= s < 90 ==> #[trigger] r.magics[s] == (Magic { mask: 0, magic: 0, offset: 0, shift: 0 }),
            r.entries@.len() == 0,
    {
        Self::default()
    }

    /// The move set of square `sq` under occupancy `occupied`; the empty set
    /// off the board or when the index falls outside the table.
    pub fn lookup(&self, sq: usize, occupied: u64) -> (r: Bitboard)
        requires
            sq < 90 ==> self.magics[sq as int].shift < 64,
            sq < 90 ==> magic_index(self.magics[sq as int], occupied) <= usize::MAX,
        ensures
            sq >= 90 ==> r == (Bitboard { low: 0, high: 0 }),
            sq < 90 ==> {
                let i = magic_index(self.magics[sq as int], occupied);
                if i < self.entries@.len() {
                    r == self.entries@[i]
                } else {
                    r == (Bitboard { low: 0, high: 0 })
                }
            },
    {
        if sq >= 90 {
            return Bitboard::empty();
        }
        let idx = self.magics[sq].index(occupied);
        if idx < self.entries.len() {
            self.entries[idx]
        } else {
            Bitboard::empty()
        }
    }
}

} // verus!
