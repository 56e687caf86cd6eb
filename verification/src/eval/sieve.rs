//! A Bloom filter over position hashes: four bit positions derived from the
//! hash by rotations, in a table of 8,388,608 bits.
use vstd::prelude::*;

verus! {

/// Number of 64-bit words in the table.
pub const WORDS: usize = 131072;

/// `x` rotated left by `k` bits (0 < k < 64).
pub open spec fn rotl(x: u64, k: u64) -> u64 {
    (x << k) | (x >> (64 - k) as u64)
}

/// Whether bit `idx` of the table is set: bit `idx % 64` of word
/// `(idx / 64) % len`.
pub open spec fn bit_on(bits: Seq<u64>, idx: int) -> bool {
    (bits[(idx / 64) % (bits.len() as int)] >> ((idx % 64) as u64)) & 1 == 1
}

/// `bits` with bit `idx` set: bit `idx % 64` of word `(idx / 64) % len`.
pub open spec fn with_bit(bits: Seq<u64>, idx: int) -> Seq<u64> {
    let w = (idx / 64) % (bits.len() as int);
    bits.update(w, bits[w] | (1u64 << ((idx % 64) as u64)))
}

/// `bits` with the four probe bits of `hash` set, in a table of `cap` bits.
pub open spec fn with_probes(bits: Seq<u64>, hash: u64, cap: usize) -> Seq<u64> {
    let p = probes(hash, cap);
    with_bit(with_bit(with_bit(with_bit(bits, p[0]), p[1]), p[2]), p[3])
}

/// The four bit positions of `hash` in a table of `cap` bits.
pub open spec fn probes(hash: u64, cap: usize) -> Seq<int> {
    seq![
        (hash as usize) as int % cap as int,
        (rotl(hash, 17) as usize) as int % cap as int,
        (rotl(hash, 31) as usize) as int % cap as int,
        (rotl(hash, 47) as usize) as int % cap as int,
    ]
}

/// The filter.
pub struct Sieve {
    bits: Vec<u64>,
    capacity: usize,
    count: usize,
}

fn rotate(x: u64, k: u64) -> (r: u64)
    requires
        0 < k < 64,
    ensures
        r == rotl(x, k),
{
    (x << k) | (x >> (64 - k))
}

impl Sieve {
    /// The table has its full size and `capacity` counts its bits.
    pub closed spec fn wf(&self) -> bool {
        &&& self.bits@.len() == WORDS
        &&& self.capacity == WORDS * 64
    }

    /// The table.
    pub closed spec fn table(&self) -> Seq<u64> {
        self.bits@
    }

    /// Whether every probe of `hash` finds its bit set.
    pub open spec fn holds(&self, hash: u64) -> bool {
        forall|k: int| 0 <= k < 4 ==> #[trigger] bit_on(self.table(), probes(hash, (WORDS * 64) as usize)[k])
    }

    /// An empty filter.
    pub fn new() -> (r: Self)
        ensures
            r.wf(),
            forall|i: int| 0 <= i < WORDS ==> #[trigger] r.table()[i] == 0,
    {
        let size: usize = 131072;
        let mut bits: Vec<u64> = Vec::new();
        let mut i: usize = 0;
        while i < size
            invariant
                size == 131072,
                i <= size,
                bits@.len() == i,
                forall|j: int| 0 <= j < i ==> #[trigger] bits@[j] == 0,
            decreases size - i,
        {
            bits.push(0);
            i += 1;
        }
        Self { bits, capacity: size * 64, count: 0 }
    }

    fn mark(&mut self, idx: usize)
        requires
            old(self).wf(),
        ensures
            final(self).wf(),
            final(self).table() == with_bit(old(self).table(), idx as int),
            bit_on(final(self).table(), idx as int),
            forall|j: int| 0 <= j && bit_on(old(self).table(), j) ==> #[trigger] bit_on(final(self).table(), j),
    {
        let word = (idx / 64) % self.bits.len();
        let bit = (idx % 64) as u64;
        let old_word = self.bits[word];
        let new_word = old_word | (1u64 << bit);
        let ghost before = self.bits@;
        self.bits.set(word, new_word);
        proof {
            assert((new_word >> bit) & 1 == 1) by (bit_vector)
                requires
                    new_word == old_word | (1u64 << bit),
                    bit < 64,
            ;
            assert forall|j: int| 0 <= j && bit_on(before, j) implies #[trigger] bit_on(self.bits@, j) by {
                let w = (j / 64) % (before.len() as int);
                let b = (j % 64) as u64;
                if w == word {
                    let x = before[w];
                    assert(((x | (1u64 << bit)) >> b) & 1 == 1) by (bit_vector)
                        requires
                            (x >> b) & 1 == 1,
                            bit < 64,
                            b < 64,
                    ;
                }
            }
        }
    }

    fn test(&self, idx: usize) -> (r: bool)
        requires
            self.wf(),
        ensures
            r == bit_on(self.table(), idx as int),
    {
        let word = (idx / 64) % self.bits.len();
        let bit = (idx % 64) as u64;
        let mask = 1u64 << bit;
        let x = self.bits[word];
        assert(((x & mask) != 0) == ((x >> bit) & 1 == 1)) by (bit_vector)
            requires
                mask == 1u64 << bit,
                bit < 64,
        ;
        (x & mask) != 0
    }

    /// Adds `hash`: sets the bits of its four probes.
    pub fn push(&mut self, hash: u64)
        requires
            old(self).wf(),
        ensures
            final(self).wf(),
            final(self).table() == with_probes(old(self).table(), hash, (WORDS * 64) as usize),
            final(self).holds(hash),
            forall|h: u64| old(self).holds(h) ==> #[trigger] final(self).holds(h),
    {
        let cap = self.capacity;
        let h1 = hash as usize % cap;
        let h2 = rotate(hash, 17) as usize % cap;
        let h3 = rotate(hash, 31) as usize % cap;
        let h4 = rotate(hash, 47) as usize % cap;
        let ghost t0 = self.table();
        self.mark(h1);
        let ghost t1 = self.table();
        self.mark(h2);
        let ghost t2 = self.table();
        self.mark(h3);
        let ghost t3 = self.table();
        self.mark(h4);
        proof {
            let p = probes(hash, (WORDS * 64) as usize);
            assert(p[0] == h1 && p[1] == h2 && p[2] == h3 && p[3] == h4);
            assert(bit_on(t1, h1 as int));
            assert(bit_on(t2, h1 as int));
            assert(bit_on(t3, h1 as int));
            assert(bit_on(t2, h2 as int));
            assert(bit_on(t3, h2 as int));
            assert(bit_on(t3, h3 as int));
            assert forall|h: u64| old(self).holds(h) implies #[trigger] self.holds(h) by {
                let q = probes(h, (WORDS * 64) as usize);
                assert forall|k: int| 0 <= k < 4 implies #[trigger] bit_on(self.table(), q[k]) by {
                    assert(bit_on(t0, q[k]));
                    assert(q[k] >= 0);
                    assert(bit_on(t1, q[k]));
                    assert(bit_on(t2, q[k]));
                    assert(bit_on(t3, q[k]));
                }
            }
        }
    }

    /// Whether `hash` may have been added: all four probe bits are set.
    pub fn contains(&self, hash: u64) -> (r: bool)
        requires
            self.wf(),
        ensures
            r == self.holds(hash),
    {
        let cap = self.capacity;
        let h1 = hash as usize % cap;
        let h2 = rotate(hash, 17) as usize % cap;
        let h3 = rotate(hash, 31) as usize % cap;
        let h4 = rotate(hash, 47) as usize % cap;
        let r = self.test(h1) && self.test(h2) && self.test(h3) && self.test(h4);
        proof {
            let p = probes(hash, (WORDS * 64) as usize);
            assert(p[0] == h1 && p[1] == h2 && p[2] == h3 && p[3] == h4);
        }
        r
    }

    /// Empties the filter.
    pub fn clear(&mut self)
        requires
            old(self).wf(),
        ensures
            final(self).wf(),
            forall|i: int| 0 <= i < WORDS ==> #[trigger] final(self).table()[i] == 0,
    {
        let mut i: usize = 0;
        while i < self.bits.len()
            invariant
                self.bits@.len() == WORDS,
                self.capacity == WORDS * 64,
                i <= WORDS,
                forall|j: int| 0 <= j < i ==> #[trigger] self.bits@[j] == 0,
            decreases WORDS - i,
        {
            self.bits.set(i, 0);
            i += 1;
        }
        self.count = 0;
    }
}

} // verus!
