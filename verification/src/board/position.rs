//! Board state: a piece code per square, kept in step with per-piece and
//! per-side bitboards, piece counts, king squares and a Zobrist hash.
use vstd::prelude::*;
use super::bitboard::{Bitboard, lemma_bitboard_ext, lemma_bit_zero};
use super::square::Square;
use super::state::State;
use super::zobrist::{key, side, piece_key, side_key};

verus! {

/// Number of the first `n` squares of `g` that hold code `p`.
pub open spec fn tally(g: Seq<u8>, p: u8, n: nat) -> nat
    decreases n,
{
    if n == 0 {
        0
    } else {
        tally(g, p, (n - 1) as nat) + if g[n - 1] == p {
            1nat
        } else {
            0nat
        }
    }
}

/// The Zobrist contribution of code `p` on square `s`: its key, or 0 when empty.
pub open spec fn cell_key(p: u8, s: int) -> u64 {
    if p < 14 {
        piece_key(p as int, s)
    } else {
        0
    }
}

/// XOR of the contributions of the first `n` squares of `g`.
pub open spec fn grid_hash(g: Seq<u8>, n: nat) -> u64
    decreases n,
{
    if n == 0 {
        0
    } else {
        grid_hash(g, (n - 1) as nat) ^ cell_key(g[n - 1], n - 1)
    }
}

/// Side of a piece code: 0 for Red (below 7), 1 for Black.
pub open spec fn side_of(p: u8) -> int {
    if p < 7 {
        0
    } else {
        1
    }
}

/// The whole board state.
#[derive(Clone, Copy, Debug, PartialEq, Eq, Hash)]
pub struct Position {
    /// Squares of each side's pieces (0: Red, 1: Black).
    pub color: [Bitboard; 2],
    /// Squares of each piece code.
    pub piece: [Bitboard; 14],
    /// Squares holding any piece.
    pub occupied: Bitboard,
    /// Zobrist hash of the position.
    pub hash: u64,
    /// Half-move clock (moves since the last capture or pawn move).
    pub rule: u16,
    /// Ply counter.
    pub ply: u16,
    /// Side to move (0: Red, 1: Black).
    pub side: u8,
    /// Check flag.
    pub check: u8,
    /// Code of the piece captured by the last move (14: none).
    pub captured: u8,
    /// Square of each side's king.
    pub king: [u8; 2],
    /// Number of pieces of each code.
    pub counts: [u8; 14],
    /// Piece code on each square (14: empty).
    pub grid: [u8; 90],
    /// Padding.
    pub pad: [u8; 55],
}

/// The grid after moving the piece on `from` to `to`: the moving piece lands
/// on `to` and `from` empties; with nothing on `from`, a piece on `to` is
/// removed.
pub open spec fn moved_grid(g: Seq<u8>, from: int, to: int) -> Seq<u8> {
    if g[from] < 14 {
        g.update(to, g[from]).update(from, 14)
    } else if g[to] < 14 {
        g.update(to, 14)
    } else {
        g
    }
}

/// The hash after a move: the captured piece's key, the moving piece's keys
/// on both squares and the side key are XORed into `h`.
pub open spec fn moved_hash(h: u64, moving: u8, captured: u8, from: int, to: int) -> u64 {
    let h1 = if captured < 14 {
        h ^ piece_key(captured as int, to)
    } else {
        h
    };
    let h2 = if moving < 14 {
        h1 ^ piece_key(moving as int, from) ^ piece_key(moving as int, to)
    } else {
        h1
    };
    h2 ^ side_key()
}

/// The grid after taking a move back: the piece on `to` returns to `from`,
/// and the captured piece (if any) to `to`.
pub open spec fn unmoved_grid(g: Seq<u8>, from: int, to: int, captured: u8) -> Seq<u8> {
    let g1 = if g[to] < 14 {
        g.update(to, 14).update(from, g[to])
    } else {
        g
    };
    if captured < 14 {
        g1.update(to, captured)
    } else {
        g1
    }
}

/// `p1` and `st` are what `apply(from, to)` makes of `p0` and returns.
pub open spec fn applied(p0: Position, from: u8, to: u8, p1: Position, st: State) -> bool {
    if from >= 90 || to >= 90 || from == to {
        &&& p1 == p0
        &&& st == State {
            captured: 14,
            prev: p0.captured,
            check: p0.check,
            pad: 0,
            rule: p0.rule,
            ply: p0.ply,
            hash: p0.hash,
        }
    } else {
        let moving = p0.grid[from as int];
        let captured = p0.grid[to as int];
        &&& st == State {
            captured,
            prev: p0.captured,
            check: p0.check,
            pad: 0,
            rule: p0.rule,
            ply: p0.ply,
            hash: p0.hash,
        }
        &&& p1.wf()
        &&& p1.grid@ == moved_grid(p0.grid@, from as int, to as int)
        &&& p1.rule == (if captured < 14 || (moving < 14 && moving % 7 == 6) {
            0
        } else {
            p0.rule + 1
        })
        &&& p1.ply == p0.ply + 1
        &&& p1.side == p0.side ^ 1
        &&& p1.hash == moved_hash(p0.hash, moving, captured, from as int, to as int)
        &&& p1.captured == captured
        &&& p1.check == p0.check
        &&& p1.pad == p0.pad
        &&& if moving < 14 && moving % 7 == 0 {
            &&& p1.king[side_of(moving)] == to
            &&& p1.king[1 - side_of(moving)] == p0.king[1 - side_of(moving)]
        } else {
            p1.king == p0.king
        }
    }
}

/// `p2` is what `revert(from, to, st)` makes of `p1`.
pub open spec fn reverted(p1: Position, from: u8, to: u8, st: State, p2: Position) -> bool {
    &&& p2.rule == st.rule
    &&& p2.ply == st.ply
    &&& p2.check == st.check
    &&& p2.captured == st.prev
    &&& p2.hash == st.hash
    &&& p2.pad == p1.pad
    &&& if from >= 90 || to >= 90 || from == to {
        &&& p2.grid == p1.grid
        &&& p2.color == p1.color
        &&& p2.piece == p1.piece
        &&& p2.occupied == p1.occupied
        &&& p2.side == p1.side
        &&& p2.king == p1.king
        &&& p2.counts == p1.counts
    } else {
        let moving = p1.grid[to as int];
        &&& p2.wf()
        &&& p2.side == p1.side ^ 1
        &&& p2.grid@ == unmoved_grid(p1.grid@, from as int, to as int, st.captured)
        &&& forall|c: int|
            0 <= c < 2 ==> #[trigger] p2.king[c] == if st.captured < 14 && st.captured % 7 == 0
                && side_of(st.captured) == c {
                to
            } else if moving < 14 && moving % 7 == 0 && side_of(moving) == c {
                from
            } else {
                p1.king[c]
            }
    }
}

impl Position {
    /// Counts and bitboards agree with the grid, which holds codes 0..14.
    pub open spec fn wf(&self) -> bool {
        &&& forall|s: int| 0 <= s < 90 ==> #[trigger] self.grid[s] <= 14
        &&& forall|p: int| 0 <= p < 14 ==> #[trigger] self.counts[p] == tally(self.grid@, p as u8, 90)
        &&& forall|p: int| 0 <= p < 14 ==> #[trigger] self.piece[p].clean()
        &&& forall|c: int| 0 <= c < 2 ==> #[trigger] self.color[c].clean()
        &&& self.occupied.clean()
        &&& forall|p: int, s: int|
            0 <= p < 14 && 0 <= s < 90 ==> #[trigger] self.piece[p].has(s) == (self.grid[s] == p)
        &&& forall|c: int, s: int|
            0 <= c < 2 && 0 <= s < 90 ==> #[trigger] self.color[c].has(s) == (self.grid[s] < 14
                && side_of(self.grid[s]) == c)
        &&& forall|s: int| 0 <= s < 90 ==> #[trigger] self.occupied.has(s) == (self.grid[s] < 14)
    }

    /// Every king on the board stands where `king` says.
    pub open spec fn kings_tracked(&self) -> bool {
        forall|c: int, s: int|
            #![trigger self.grid[s], self.king[c]]
            0 <= c < 2 && 0 <= s < 90 && self.grid[s] == 7 * c ==> self.king[c] == s
    }

    /// The Zobrist hash of the grid and side to move.
    pub open spec fn spec_hash(&self) -> u64 {
        grid_hash(self.grid@, 90) ^ (if self.side == 1 {
            side_key()
        } else {
            0
        })
    }

    /// The fields that neither `put` nor `take` touch are those of `other`.
    pub open spec fn same_scalars(&self, other: &Position) -> bool {
        &&& self.hash == other.hash
        &&& self.rule == other.rule
        &&& self.ply == other.ply
        &&& self.side == other.side
        &&& self.check == other.check
        &&& self.captured == other.captured
        &&& self.pad == other.pad
    }

    /// The board with no pieces, Red to move, ply 1.
    pub fn empty() -> (r: Self)
        ensures
            r.wf(),
            r.kings_tracked(),
            forall|s: int| 0 <= s < 90 ==> #[trigger] r.grid[s] == 14,
            r.hash == 0 && r.hash == r.spec_hash(),
            r.rule == 0 && r.ply == 1 && r.side == 0 && r.check == 0 && r.captured == 14,
            r.king[0] == 255 && r.king[1] == 255,
            forall|i: int| 0 <= i < 55 ==> #[trigger] r.pad[i] == 0,
    {
        let r = Self {
            color: [Bitboard::empty(), Bitboard::empty()],
            piece: [Bitboard::empty(); 14],
            occupied: Bitboard::empty(),
            hash: 0,
            rule: 0,
            ply: 1,
            side: 0,
            check: 0,
            captured: 14,
            king: [255; 2],
            counts: [0; 14],
            grid: [14; 90],
            pad: [0; 55],
        };
        proof {
            assert forall|p: int| 0 <= p < 14 implies #[trigger] r.counts[p] == tally(r.grid@, p as u8, 90) by {
                lemma_tally_absent(r.grid@, p as u8, 90);
            }
            lemma_grid_hash_empty(r.grid@, 90);
            assert forall|p: int, s: int| 0 <= p < 14 && 0 <= s < 90 implies #[trigger] r.piece[p].has(s) == (r.grid[s] == p) by {
                lemma_bit_zero(s);
                lemma_bit_zero(s - 45);
            }
            assert forall|c: int, s: int| 0 <= c < 2 && 0 <= s < 90 implies #[trigger] r.color[c].has(s) == (r.grid[s] < 14 && side_of(r.grid[s]) == c) by {
                lemma_bit_zero(s);
                lemma_bit_zero(s - 45);
            }
            assert forall|s: int| 0 <= s < 90 implies #[trigger] r.occupied.has(s) == (r.grid[s] < 14) by {
                lemma_bit_zero(s);
                lemma_bit_zero(s - 45);
            }
            assert(0u64 >> 45u64 == 0) by (bit_vector);
            assert(0u64 ^ 0u64 == 0) by (bit_vector);
        }
        r
    }

    /// Empties the board: afterwards it is the board that `empty` returns.
    pub fn clear(&mut self)
        ensures
            final(self).wf(),
            final(self).kings_tracked(),
            forall|s: int| 0 <= s < 90 ==> #[trigger] final(self).grid[s] == 14,
            final(self).hash == 0 && final(self).hash == final(self).spec_hash(),
            final(self).rule == 0 && final(self).ply == 1 && final(self).side == 0
                && final(self).check == 0 && final(self).captured == 14,
            final(self).king[0] == 255 && final(self).king[1] == 255,
            forall|i: int| 0 <= i < 55 ==> #[trigger] final(self).pad[i] == 0,
    {
        *self = Self::empty();
    }

    /// Places piece `piece` on `square`, first removing whatever stood there.
    /// Placing a king records its square. Does nothing when `piece` is not a
    /// piece code or `square` is off the board.
    pub fn put(&mut self, piece: u8, square: u8)
        requires
            old(self).wf(),
        ensures
            final(self).wf(),
            piece >= 14 || square >= 90 ==> *final(self) == *old(self),
            piece < 14 && square < 90 ==> final(self).grid@ == old(self).grid@.update(
                square as int,
                piece,
            ) && final(self).same_scalars(old(self)),
            piece < 14 && square < 90 && piece % 7 == 0 ==> final(self).king[side_of(piece)]
                == square && final(self).king[1 - side_of(piece)] == old(self).king[1 - side_of(
                piece,
            )],
            piece < 14 && square < 90 && piece % 7 != 0 ==> final(self).king == old(self).king,
    {
        if piece >= 14 || square >= 90 {
            return;
        }
        let old = self.grid[square as usize];
        if old < 14 {
            self.take(square);
        }
        let ghost g = self.grid@;
        let sq = Square(square);
        let color: usize = if piece < 7 {
            0
        } else {
            1
        };
        proof {
            lemma_tally_bound(g, piece, 90);
        }
        self.grid[square as usize] = piece;
        self.piece[piece as usize].set(sq);
        self.color[color].set(sq);
        self.occupied.set(sq);
        self.counts[piece as usize] += 1;
        proof {
            let g2 = self.grid@;
            assert(g2 == g.update(square as int, piece));
            assert forall|p: int| 0 <= p < 14 implies #[trigger] self.counts[p] == tally(self.grid@, p as u8, 90) by {
                lemma_tally_update(g, p as u8, square as int, piece, 90);
            }
        }
        if piece % 7 == 0 {
            self.king[color] = square;
        }
    }

    /// Removes the piece on `square` and returns its code; returns 14 and
    /// changes nothing when the square is empty or off the board.
    pub fn take(&mut self, square: u8) -> (r: u8)
        requires
            old(self).wf(),
        ensures
            final(self).wf(),
            square >= 90 ==> r == 14 && *final(self) == *old(self),
            square < 90 ==> r == old(self).grid[square as int],
            square < 90 && r >= 14 ==> *final(self) == *old(self),
            square < 90 && r < 14 ==> final(self).grid@ == old(self).grid@.update(square as int, 14)
                && final(self).king == old(self).king && final(self).same_scalars(old(self)),
    {
        if square >= 90 {
            return 14;
        }
        let piece = self.grid[square as usize];
        if piece < 14 {
            let ghost g = self.grid@;
            let sq = Square(square);
            let color: usize = if piece < 7 {
                0
            } else {
                1
            };
            proof {
                lemma_tally_pos(g, piece, square as int, 90);
            }
            self.grid[square as usize] = 14;
            self.piece[piece as usize].clear(sq);
            self.color[color].clear(sq);
            self.occupied.clear(sq);
            self.counts[piece as usize] -= 1;
            proof {
                let g2 = self.grid@;
                assert(g2 == g.update(square as int, 14));
                assert forall|p: int| 0 <= p < 14 implies #[trigger] self.counts[p] == tally(self.grid@, p as u8, 90) by {
                    lemma_tally_update(g, p as u8, square as int, 14, 90);
                }
            }
        }
        piece
    }

    /// Recomputes the Zobrist hash from the grid and the side to move.
    pub fn compute(&self) -> (r: u64)
        ensures
            r == self.spec_hash(),
    {
        let mut hash = 0u64;
        let mut s: usize = 0;
        while s < 90
            invariant
                s <= 90,
                hash == grid_hash(self.grid@, s as nat),
            decreases 90 - s,
        {
            let piece = self.grid[s];
            if piece < 14 {
                hash ^= key(piece as usize, s);
            } else {
                assert(hash ^ 0u64 == hash) by (bit_vector);
            }
            s += 1;
        }
        if self.side == 1 {
            hash ^= side();
        } else {
            assert(hash ^ 0u64 == hash) by (bit_vector);
        }
        hash
    }

    /// Makes the move `from` -> `to` and returns what it overwrote. A move off
    /// the board or onto its own square changes nothing.
    pub fn apply(&mut self, from: u8, to: u8) -> (r: State)
        requires
            old(self).wf(),
            from < 90 && to < 90 && from != to ==> old(self).ply < u16::MAX,
            from < 90 && to < 90 && from != to && old(self).grid[to as int] >= 14 && !(old(self).grid[from as int] < 14 && old(self).grid[from as int] % 7 == 6) ==> old(self).rule < u16::MAX,
        ensures
            applied(*old(self), from, to, *final(self), r),
            final(self).wf(),
            old(self).hash == old(self).spec_hash() && old(self).side < 2 ==> final(self).hash == final(self).spec_hash(),
            old(self).kings_tracked() ==> final(self).kings_tracked(),
    {
        if from >= 90 || to >= 90 || from == to {
            return State::new(14, self.captured, self.check, self.rule, self.ply, self.hash);
        }
        let ghost p0 = *self;
        let moving = self.grid[from as usize];
        let captured = self.grid[to as usize];
        let state = State::new(captured, self.captured, self.check, self.rule, self.ply, self.hash);
        if captured < 14 {
            self.take(to);
            self.hash ^= key(captured as usize, to as usize);
            self.rule = 0;
        } else if moving < 14 && moving % 7 == 6 {
            self.rule = 0;
        } else {
            self.rule += 1;
        }
        let ghost p_mid = *self;
        if moving < 14 {
            self.take(from);
            self.hash ^= key(moving as usize, from as usize);
            self.put(moving, to);
            self.hash ^= key(moving as usize, to as usize);
        }
        self.captured = captured;
        self.ply += 1;
        self.side ^= 1;
        self.hash ^= side();
        proof {
            let f = from as int;
            let t = to as int;
            let g0 = p0.grid@;
            assert(self.grid@ == moved_grid(g0, f, t));
            if p0.hash == p0.spec_hash() && p0.side < 2 {
                let gm = p_mid.grid@;
                if captured < 14 {
                    lemma_grid_hash_update(g0, t, 14, 90);
                } else {
                    assert(gm == g0);
                }
                let hm = grid_hash(gm, 90);
                assert(hm == grid_hash(g0, 90) ^ cell_key(captured, t) ^ cell_key(14, t)) by {
                    if captured >= 14 {
                        let x = grid_hash(g0, 90);
                        assert(x ^ 0u64 ^ 0u64 == x) by (bit_vector);
                    }
                };
                if moving < 14 {
                    let g1 = gm.update(f, 14);
                    lemma_grid_hash_update(gm, f, 14, 90);
                    lemma_grid_hash_update(g1, t, moving, 90);
                    assert(self.grid@ == g1.update(t, moving));
                    assert(gm[f] == moving);
                    assert(g1[t] == 14);
                }
                let sk = side_key();
                let c: u64 = if captured < 14 { piece_key(captured as int, t) } else { 0 };
                let m1: u64 = if moving < 14 { piece_key(moving as int, f) } else { 0 };
                let m2: u64 = if moving < 14 { piece_key(moving as int, t) } else { 0 };
                let h0 = grid_hash(g0, 90);
                assert(hm == h0 ^ c) by {
                    assert(h0 ^ c ^ 0u64 == h0 ^ c) by (bit_vector);
                };
                let h1 = grid_hash(self.grid@, 90);
                assert(h1 == h0 ^ c ^ m1 ^ m2) by {
                    let x = h0 ^ c;
                    if moving < 14 {
                        assert(x ^ m1 ^ 0u64 ^ 0u64 ^ m2 == x ^ m1 ^ m2) by (bit_vector);
                    } else {
                        assert(self.grid@ == gm);
                        assert(x ^ 0u64 ^ 0u64 == x) by (bit_vector);
                    }
                };
                let ph = p0.hash;
                assert(self.hash == ph ^ c ^ m1 ^ m2 ^ sk) by {
                    if captured < 14 && moving < 14 {
                    } else if captured < 14 {
                        assert(ph ^ c ^ sk == ph ^ c ^ 0u64 ^ 0u64 ^ sk) by (bit_vector);
                    } else if moving < 14 {
                        assert(ph ^ m1 ^ m2 ^ sk == ph ^ 0u64 ^ m1 ^ m2 ^ sk) by (bit_vector);
                    } else {
                        assert(ph ^ sk == ph ^ 0u64 ^ 0u64 ^ 0u64 ^ sk) by (bit_vector);
                    }
                };
                let s0 = p0.side;
                let s1 = self.side;
                let z0: u64 = if s0 == 1 { sk } else { 0 };
                let z1: u64 = if s1 == 1 { sk } else { 0 };
                assert(s0 < 2 ==> (s0 ^ 1u8 == 1u8) == (s0 != 1u8)) by (bit_vector);
                assert(ph == h0 ^ z0);
                assert((h0 ^ z0) ^ c ^ m1 ^ m2 ^ sk == (h0 ^ c ^ m1 ^ m2) ^ z1) by (bit_vector)
                    requires
                        (z0 == sk && z1 == 0u64) || (z0 == 0u64 && z1 == sk),
                ;
            }
            if p0.kings_tracked() {
                assert forall|c: int, s: int|
                    #![trigger self.grid[s], self.king[c]]
                    0 <= c < 2 && 0 <= s < 90 && self.grid[s] == 7 * c implies self.king[c] == s by {
                    if s == t {
                        assert(moving < 14 && moving == 7 * c);
                    } else {
                        assert(s != f);
                        assert(p0.grid[s] == 7 * c);
                        assert(p0.king[c] == s);
                        if moving < 14 && moving % 7 == 0 && side_of(moving) == c {
                            assert(p0.grid[f] == 7 * c);
                            assert(p0.king[c] == f);
                        }
                    }
                }
            }
        }
        state
    }

    /// Takes back the move `from` -> `to` made by `apply`, using the `State`
    /// it returned. For a move off the board or onto its own square only the
    /// saved counters are restored.
    pub fn revert(&mut self, from: u8, to: u8, state: &State)
        requires
            old(self).wf(),
        ensures
            reverted(*old(self), from, to, *state, *final(self)),
            final(self).wf(),
    {
        if from >= 90 || to >= 90 || from == to {
            self.rule = state.rule;
            self.ply = state.ply;
            self.check = state.check;
            self.captured = state.prev;
            self.hash = state.hash;
            return;
        }
        let ghost p1 = *self;
        self.side ^= 1;
        let moving = self.grid[to as usize];
        if moving < 14 {
            self.take(to);
            self.put(moving, from);
        }
        let ghost pm = *self;
        if state.captured < 14 {
            self.put(state.captured, to);
        }
        self.rule = state.rule;
        self.ply = state.ply;
        self.check = state.check;
        self.captured = state.prev;
        self.hash = state.hash;
        proof {
            let f = from as int;
            let t = to as int;
            if moving < 14 {
                assert(pm.grid@ == p1.grid@.update(t, 14).update(f, moving));
            }
            assert(self.grid@ == unmoved_grid(p1.grid@, f, t, state.captured));
        }
    }

    /// Piece code on square `square`; 14 (empty) off the board.
    pub fn at(&self, square: u8) -> (r: u8)
        ensures
            square >= 90 ==> r == 14,
            square < 90 ==> r == self.grid[square as int],
    {
        if square >= 90 {
            return 14;
        }
        self.grid[square as usize]
    }
}

/// Taking a move back restores the position it was made from: `revert`
/// undoes `apply` on every well-formed position whose king squares are
/// recorded, whatever the move.
pub proof fn lemma_revert_undoes_apply(
    p0: Position,
    from: u8,
    to: u8,
    p1: Position,
    st: State,
    p2: Position,
)
    requires
        p0.wf(),
        p0.kings_tracked(),
        applied(p0, from, to, p1, st),
        reverted(p1, from, to, st, p2),
    ensures
        p2 == p0,
{
    if from < 90 && to < 90 && from != to {
        let f = from as int;
        let t = to as int;
        let g0 = p0.grid@;
        assert(p2.grid@ =~= g0);
        assert(p2.grid == p0.grid);
        assert forall|p: int| 0 <= p < 14 implies #[trigger] p2.piece[p] == p0.piece[p] by {
            lemma_bitboard_ext(p2.piece[p], p0.piece[p]);
        }
        assert(p2.piece =~= p0.piece);
        assert forall|c: int| 0 <= c < 2 implies #[trigger] p2.color[c] == p0.color[c] by {
            lemma_bitboard_ext(p2.color[c], p0.color[c]);
        }
        assert(p2.color =~= p0.color);
        lemma_bitboard_ext(p2.occupied, p0.occupied);
        assert(p2.counts =~= p0.counts);
        assert forall|c: int| 0 <= c < 2 implies #[trigger] p2.king[c] == p0.king[c] by {
            let moving = g0[f];
            let captured = g0[t];
            if captured < 14 && captured % 7 == 0 && side_of(captured) == c {
                assert(p0.grid[t] == 7 * c);
            } else if moving < 14 && moving % 7 == 0 && side_of(moving) == c {
                assert(p0.grid[f] == 7 * c);
            }
        }
        assert(p2.king =~= p0.king);
        let x = p0.side;
        assert(x ^ 1u8 ^ 1u8 == x) by (bit_vector);
    }
}

/// `tally` counts at most `n` squares.
pub proof fn lemma_tally_bound(g: Seq<u8>, p: u8, n: nat)
    ensures
        tally(g, p, n) <= n,
    decreases n,
{
    if n > 0 {
        lemma_tally_bound(g, p, (n - 1) as nat);
    }
}

/// A square holding `p` is counted.
pub proof fn lemma_tally_pos(g: Seq<u8>, p: u8, i: int, n: nat)
    requires
        0 <= i < n,
        g[i] == p,
    ensures
        tally(g, p, n) >= 1,
    decreases n,
{
    if i < n - 1 {
        lemma_tally_pos(g, p, i, (n - 1) as nat);
    }
}

/// No square holds `p` when the first `n` are all empty.
proof fn lemma_tally_absent(g: Seq<u8>, p: u8, n: nat)
    requires
        p < 14,
        forall|s: int| 0 <= s < n ==> #[trigger] g[s] == 14,
    ensures
        tally(g, p, n) == 0,
    decreases n,
{
    if n > 0 {
        lemma_tally_absent(g, p, (n - 1) as nat);
    }
}

/// Changing square `i` moves one square between the tallies of the old and new codes.
pub proof fn lemma_tally_update(g: Seq<u8>, p: u8, i: int, v: u8, n: nat)
    requires
        0 <= i < n <= g.len(),
    ensures
        tally(g.update(i, v), p, n) as int == tally(g, p, n) as int - (if g[i] == p {
            1int
        } else {
            0int
        }) + (if v == p {
            1int
        } else {
            0int
        }),
    decreases n,
{
    let g2 = g.update(i, v);
    if i == n - 1 {
        lemma_tally_same(g, g2, p, (n - 1) as nat);
    } else {
        lemma_tally_update(g, p, i, v, (n - 1) as nat);
    }
}

/// Tallies depend only on the squares counted.
pub proof fn lemma_tally_same(g: Seq<u8>, h: Seq<u8>, p: u8, n: nat)
    requires
        n <= g.len(),
        n <= h.len(),
        forall|s: int| 0 <= s < n ==> #[trigger] g[s] == h[s],
    ensures
        tally(g, p, n) == tally(h, p, n),
    decreases n,
{
    if n > 0 {
        lemma_tally_same(g, h, p, (n - 1) as nat);
    }
}

proof fn lemma_grid_hash_empty(g: Seq<u8>, n: nat)
    requires
        forall|s: int| 0 <= s < n ==> #[trigger] g[s] == 14,
    ensures
        grid_hash(g, n) == 0,
    decreases n,
{
    if n > 0 {
        lemma_grid_hash_empty(g, (n - 1) as nat);
        assert(0u64 ^ 0u64 == 0) by (bit_vector);
    }
}

/// Grid hashes depend only on the squares hashed.
pub proof fn lemma_grid_hash_same(g: Seq<u8>, h: Seq<u8>, n: nat)
    requires
        n <= g.len(),
        n <= h.len(),
        forall|s: int| 0 <= s < n ==> #[trigger] g[s] == h[s],
    ensures
        grid_hash(g, n) == grid_hash(h, n),
    decreases n,
{
    if n > 0 {
        lemma_grid_hash_same(g, h, (n - 1) as nat);
    }
}

/// Changing square `i` from `g[i]` to `v` XORs out the old contribution and in the new one.
pub proof fn lemma_grid_hash_update(g: Seq<u8>, i: int, v: u8, n: nat)
    requires
        0 <= i < n <= g.len(),
    ensures
        grid_hash(g.update(i, v), n) == grid_hash(g, n) ^ cell_key(g[i], i) ^ cell_key(v, i),
    decreases n,
{
    let g2 = g.update(i, v);
    let a = cell_key(g[i], i);
    let b = cell_key(v, i);
    if i == n - 1 {
        lemma_grid_hash_same(g, g2, (n - 1) as nat);
        let h = grid_hash(g, (n - 1) as nat);
        assert(h ^ b == h ^ a ^ a ^ b) by (bit_vector);
    } else {
        lemma_grid_hash_update(g, i, v, (n - 1) as nat);
        let h = grid_hash(g, (n - 1) as nat);
        let c = cell_key(g[n - 1], n - 1);
        assert(h ^ a ^ b ^ c == h ^ c ^ a ^ b) by (bit_vector);
    }
}

} // verus!
