//! Zobrist keys: one pseudo-random 64-bit word per (piece code, square) and one
//! for Black to move, drawn from a SplitMix64 stream with a fixed seed.
use vstd::prelude::*;
use vstd::arithmetic::div_mod::{lemma_add_mod_noop, lemma_mod_bound, lemma_mod_twice};

verus! {

/// Step added to the SplitMix64 state at each draw.
pub const GAMMA: u64 = 0x9E3779B97F4A7C15;
/// Seed of the key stream.
pub const SEED: u64 = 0x123456789ABCDEF0;
/// First multiplier of the SplitMix64 finaliser.
pub const MIX1: u64 = 0xBF58476D1CE4E5B9;
/// Second multiplier of the SplitMix64 finaliser.
pub const MIX2: u64 = 0x94D049BB133111EB;

/// `x * y` modulo 2^64.
pub open spec fn wmul(x: u64, y: u64) -> u64 {
    ((x as nat * y as nat) % 0x1_0000_0000_0000_0000) as u64
}

/// `x + y` modulo 2^64.
pub open spec fn wadd(x: u64, y: u64) -> u64 {
    ((x as nat + y as nat) % 0x1_0000_0000_0000_0000) as u64
}

/// The SplitMix64 output function applied to a state word.
#[verifier::opaque]
pub open spec fn mix(s: u64) -> u64 {
    let a = wmul(s ^ (s >> 30u64), MIX1);
    let b = wmul(a ^ (a >> 27u64), MIX2);
    b ^ (b >> 31u64)
}

/// The generator state after `n` draws from state `s`.
pub open spec fn advance(s: u64, n: nat) -> u64
    decreases n,
{
    if n == 0 {
        s
    } else {
        wadd(advance(s, (n - 1) as nat), GAMMA)
    }
}

/// The `n`-th word (counting from 1) of the key stream.
pub open spec fn stream(n: nat) -> u64 {
    mix(advance(SEED, n))
}

/// Key of piece code `p` on square `s`: draw `2 * (p * 90 + s) + 1`.
pub open spec fn piece_key(p: int, s: int) -> u64 {
    stream((2 * (p * 90 + s) + 1) as nat)
}

/// Second key of piece code `p` on square `s`: draw `2 * (p * 90 + s) + 2`.
pub open spec fn piece_key_high(p: int, s: int) -> u64 {
    stream((2 * (p * 90 + s) + 2) as nat)
}

/// Key for Black to move: the draw after all piece keys.
pub open spec fn side_key() -> u64 {
    stream(2521)
}

/// Second key for Black to move.
pub open spec fn side_key_high() -> u64 {
    stream(2522)
}

/// SplitMix64 pseudo-random generator.
pub struct Prng(pub u64);

impl Prng {
    /// A generator with state `seed`.
    pub fn new(seed: u64) -> (r: Self)
        ensures
            r.0 == seed,
    {
        Self(seed)
    }

    /// Advances the state by `GAMMA` and returns the mixed state.
    pub fn next(&mut self) -> (r: u64)
        ensures
            final(self).0 == wadd(old(self).0, GAMMA),
            r == mix(final(self).0),
    {
        reveal(mix);
        self.0 = self.0.wrapping_add(GAMMA);
        let mut z = self.0;
        z = (z ^ (z >> 30)).wrapping_mul(MIX1);
        z = (z ^ (z >> 27)).wrapping_mul(MIX2);
        z ^ (z >> 31)
    }
}

/// `advance` has the closed form `s + n * GAMMA` modulo 2^64.
pub proof fn lemma_advance_closed(s: u64, n: nat)
    ensures
        advance(s, n) as int == (s + n * GAMMA) % 0x1_0000_0000_0000_0000,
    decreases n,
{
    let m: int = 0x1_0000_0000_0000_0000;
    if n == 0 {
        assert((s as int) % m == s as int) by {
            vstd::arithmetic::div_mod::lemma_small_mod(s as nat, m as nat);
        }
    } else {
        lemma_advance_closed(s, (n - 1) as nat);
        let prev: int = s + (n - 1) * GAMMA;
        lemma_add_mod_noop(prev, GAMMA as int, m);
        vstd::arithmetic::div_mod::lemma_small_mod(GAMMA as nat, m as nat);
        assert(prev + GAMMA == s + n * GAMMA) by (nonlinear_arith)
            requires
                prev == s + (n - 1) * GAMMA,
        ;
    }
}

/// Computes the state after `n` draws from the seed without drawing them.
fn advance_seed(n: u64) -> (r: u64)
    ensures
        r == advance(SEED, n as nat),
{
    let step = n.wrapping_mul(GAMMA);
    proof {
        let m: int = 0x1_0000_0000_0000_0000;
        lemma_advance_closed(SEED, n as nat);
        lemma_add_mod_noop(SEED as int, n * GAMMA, m);
        vstd::arithmetic::div_mod::lemma_small_mod(SEED as nat, m as nat);
        lemma_mod_bound(n * GAMMA, m);
    }
    SEED.wrapping_add(step)
}

/// The SplitMix64 output function.
fn mix_word(s: u64) -> (r: u64)
    ensures
        r == mix(s),
{
    reveal(mix);
    let mut z = s;
    z = (z ^ (z >> 30)).wrapping_mul(MIX1);
    z = (z ^ (z >> 27)).wrapping_mul(MIX2);
    z ^ (z >> 31)
}

/// Zobrist key of piece code `piece` on square `square`.
pub fn key(piece: usize, square: usize) -> (r: u64)
    requires
        piece < 14,
        square < 90,
    ensures
        r == piece_key(piece as int, square as int),
{
    let n = (2 * (piece * 90 + square) + 1) as u64;
    mix_word(advance_seed(n))
}

/// Zobrist key for Black to move.
pub fn side() -> (r: u64)
    ensures
        r == side_key(),
{
    mix_word(advance_seed(2521))
}

/// The Zobrist tables: keys for every piece code on every square, a second
/// word per entry, and the keys for Black to move.
pub struct Zobrist {
    /// `pieces[p][s]`: key of piece code `p` on square `s`.
    pub pieces: Vec<Vec<u64>>,
    /// `pieces_high[p][s]`: second key of piece code `p` on square `s`.
    pub pieces_high: Vec<Vec<u64>>,
    /// Key for Black to move.
    pub turn: u64,
    /// Second key for Black to move.
    pub turn_high: u64,
}

impl Zobrist {
    /// The tables hold the keys of the stream, row by row.
    pub open spec fn wf(&self) -> bool {
        &&& self.pieces@.len() == 14
        &&& self.pieces_high@.len() == 14
        &&& forall|p: int| 0 <= p < 14 ==> #[trigger] self.pieces@[p]@.len() == 90
        &&& forall|p: int| 0 <= p < 14 ==> #[trigger] self.pieces_high@[p]@.len() == 90
        &&& forall|p: int, s: int|
            0 <= p < 14 && 0 <= s < 90 ==> #[trigger] self.pieces@[p]@[s] == piece_key(p, s)
        &&& forall|p: int, s: int|
            0 <= p < 14 && 0 <= s < 90 ==> #[trigger] self.pieces_high@[p]@[s] == piece_key_high(p, s)
        &&& self.turn == side_key()
        &&& self.turn_high == side_key_high()
    }

    /// Draws the tables from the stream: for each piece code and square in
    /// order, the key and then the second key; then the two side keys.
    pub fn new() -> (r: Self)
        ensures
            r.wf(),
    {
        let mut prng = Prng::new(SEED);
        let mut pieces: Vec<Vec<u64>> = Vec::new();
        let mut pieces_high: Vec<Vec<u64>> = Vec::new();
        let mut p: usize = 0;
        while p < 14
            invariant
                p <= 14,
                prng.0 == advance(SEED, (2 * p * 90) as nat),
                pieces@.len() == p,
                pieces_high@.len() == p,
                forall|q: int| 0 <= q < p ==> #[trigger] pieces@[q]@.len() == 90,
                forall|q: int| 0 <= q < p ==> #[trigger] pieces_high@[q]@.len() == 90,
                forall|q: int, s: int|
                    0 <= q < p && 0 <= s < 90 ==> #[trigger] pieces@[q]@[s] == piece_key(q, s),
                forall|q: int, s: int|
                    0 <= q < p && 0 <= s < 90 ==> #[trigger] pieces_high@[q]@[s] == piece_key_high(q, s),
            decreases 14 - p,
        {
            let mut row: Vec<u64> = Vec::new();
            let mut row_high: Vec<u64> = Vec::new();
            let mut s: usize = 0;
            while s < 90
                invariant
                    p < 14,
                    s <= 90,
                    prng.0 == advance(SEED, (2 * (p * 90 + s)) as nat),
                    row@.len() == s,
                    row_high@.len() == s,
                    forall|t: int| 0 <= t < s ==> #[trigger] row@[t] == piece_key(p as int, t),
                    forall|t: int| 0 <= t < s ==> #[trigger] row_high@[t] == piece_key_high(p as int, t),
                decreases 90 - s,
            {
                let ghost k: nat = (2 * (p * 90 + s)) as nat;
                let a = prng.next();
                let b = prng.next();
                proof {
                    assert(a == stream(k + 1));
                    assert(b == stream(k + 2));
                    assert(k + 1 == 2 * (p * 90 + s) + 1);
                    assert(k + 2 == 2 * (p * 90 + (s + 1)));
                }
                row.push(a);
                row_high.push(b);
                s += 1;
            }
            pieces.push(row);
            pieces_high.push(row_high);
            p += 1;
        }
        let turn = prng.next();
        let turn_high = prng.next();
        Self { pieces, pieces_high, turn, turn_high }
    }

    /// Key of piece code `piece` on square `square`.
    pub fn piece(&self, piece: usize, square: usize) -> (r: u64)
        requires
            self.wf(),
            piece < 14,
            square < 90,
        ensures
            r == piece_key(piece as int, square as int),
    {
        self.pieces[piece][square]
    }

    /// Both keys of piece code `piece` on square `square`.
    pub fn dual(&self, piece: usize, square: usize) -> (r: (u64, u64))
        requires
            self.wf(),
            piece < 14,
            square < 90,
        ensures
            r == (piece_key(piece as int, square as int), piece_key_high(piece as int, square as int)),
    {
        (self.pieces[piece][square], self.pieces_high[piece][square])
    }

    /// Key for Black to move.
    pub fn side(&self) -> (r: u64)
        requires
            self.wf(),
        ensures
            r == side_key(),
    {
        self.turn
    }
}

} // verus!
