//! The handcrafted evaluation's building blocks: piece values, game phase
//! and tapering, piece-square tables and the pawn terms.
use vstd::prelude::*;
use crate::board::position::Position;
use crate::board::square::{Square, flip_of};
use super::nnue::{tdiv, tdiv32};

verus! {

/// Piece values.
pub struct Value;

/// The game phase of a position from its piece counts: advisors and
/// bishops weigh 2, knights and cannons 3, rooks 6; capped at 32.
pub open spec fn phase_of(c: [u8; 14]) -> int {
    let total = (c[1] + c[8]) * 2 + (c[2] + c[9]) * 2 + (c[3] + c[10]) * 3 + (c[4] + c[11]) * 6 + (c[5]
        + c[12]) * 3;
    if total < 32 {
        total
    } else {
        32
    }
}

/// The score between middle game `mg` and end game `eg` at `phase`:
/// `(mg * phase + eg * (32 - phase)) / 32`, rounding toward zero.
pub open spec fn taper_of(mg: int, eg: int, phase: int) -> int {
    tdiv(mg * phase + eg * (32 - phase), 32)
}

impl Value {
    /// Middle-game values: king, advisor, bishop, knight, rook, cannon, pawn.
    pub const MG: [i32; 7] = [20000, 200, 200, 450, 900, 450, 100];
    /// End-game values.
    pub const EG: [i32; 7] = [20000, 250, 250, 400, 1000, 350, 120];
    /// Phase weights.
    pub const WEIGHT: [i32; 7] = [0, 2, 2, 3, 6, 3, 0];

    /// The game phase of `pos`.
    pub fn phase(pos: &Position) -> (r: i32)
        requires
            pos.counts[1] + pos.counts[8] <= 255,
            pos.counts[2] + pos.counts[9] <= 255,
            pos.counts[3] + pos.counts[10] <= 255,
            pos.counts[4] + pos.counts[11] <= 255,
            pos.counts[5] + pos.counts[12] <= 255,
        ensures
            r == phase_of(pos.counts),
    {
        let advisor = (pos.counts[1] + pos.counts[8]) as i32 * 2;
        let bishop = (pos.counts[2] + pos.counts[9]) as i32 * 2;
        let knight = (pos.counts[3] + pos.counts[10]) as i32 * 3;
        let rook = (pos.counts[4] + pos.counts[11]) as i32 * 6;
        let cannon = (pos.counts[5] + pos.counts[12]) as i32 * 3;
        let total = advisor + bishop + knight + rook + cannon;
        if total < 32 {
            total
        } else {
            32
        }
    }

    /// The tapered score of `mg` and `eg` at `phase`.
    pub fn taper(mg: i32, eg: i32, phase: i32) -> (r: i32)
        requires
            -0x8000_0000 <= mg * phase <= 0x7fff_ffff,
            -0x8000_0000 <= 32 - phase <= 0x7fff_ffff,
            -0x8000_0000 <= eg * (32 - phase) <= 0x7fff_ffff,
            -0x8000_0000 <= mg * phase + eg * (32 - phase) <= 0x7fff_ffff,
        ensures
            r == taper_of(mg as int, eg as int, phase as int),
    {
        let a = mg * phase;
        let b = eg * (32 - phase);
        tdiv32(a + b, 32)
    }
}

/// Piece-square tables.
pub struct Table;

impl Table {
    /// Middle-game piece-square values per kind, from Red's side.
    pub const MG: [[i32; 90]; 7] = [
        [
            0, 0, 0, -10, -10, -10, 0, 0, 0,
            0, 0, 0, -10, -10, -10, 0, 0, 0,
            0, 0, 0, -10, -10, -10, 0, 0, 0,
            0, 0, 0, 0, 0, 0, 0, 0, 0,
            0, 0, 0, 0, 0, 0, 0, 0, 0,
            0, 0, 0, 0, 0, 0, 0, 0, 0,
            0, 0, 0, 0, 0, 0, 0, 0, 0,
            0, 0, 0, 0, 0, 0, 0, 0, 0,
            0, 0, 0, 0, 0, 0, 0, 0, 0,
            0, 0, 0, 0, 0, 0, 0, 0, 0,
        ],
        [
            0, 0, 0, 0, 10, 0, 0, 0, 0,
            0, 0, 0, 0, 0, 0, 0, 0, 0,
            0, 0, 0, 0, 10, 0, 0, 0, 0,
            0, 0, 0, 0, 0, 0, 0, 0, 0,
            0, 0, 0, 0, 0, 0, 0, 0, 0,
            0, 0, 0, 0, 0, 0, 0, 0, 0,
            0, 0, 0, 0, 0, 0, 0, 0, 0,
            0, 0, 0, 0, 0, 0, 0, 0, 0,
            0, 0, 0, 0, 0, 0, 0, 0, 0,
            0, 0, 0, 0, 0, 0, 0, 0, 0,
        ],
        [
            0, 0, 10, 0, 0, 0, 10, 0, 0,
            0, 0, 0, 0, 0, 0, 0, 0, 0,
            20, 0, 0, 0, 30, 0, 0, 0, 20,
            0, 0, 0, 0, 0, 0, 0, 0, 0,
            0, 0, 10, 0, 0, 0, 10, 0, 0,
            0, 0, 0, 0, 0, 0, 0, 0, 0,
            0, 0, 0, 0, 0, 0, 0, 0, 0,
            0, 0, 0, 0, 0, 0, 0, 0, 0,
            0, 0, 0, 0, 0, 0, 0, 0, 0,
            0, 0, 0, 0, 0, 0, 0, 0, 0,
        ],
        [
            0, -25, 0, 0, 0, 0, 0, -25, 0,
            10, 15, 20, 20, 15, 20, 20, 15, 10,
            10, 20, 30, 35, 30, 35, 30, 20, 10,
            15, 25, 35, 40, 35, 40, 35, 25, 15,
            15, 25, 35, 40, 35, 40, 35, 25, 15,
            20, 30, 40, 50, 40, 50, 40, 30, 20,
            20, 30, 40, 50, 40, 50, 40, 30, 20,
            15, 25, 30, 35, 30, 35, 30, 25, 15,
            10, 15, 20, 20, 15, 20, 20, 15, 10,
            0, 0, 0, 0, 0, 0, 0, 0, 0,
        ],
        [
            -30, 15, 20, 25, 20, 25, 20, 15, -30,
            10, 15, 20, 25, 25, 25, 20, 15, 10,
            10, 15, 20, 25, 25, 25, 20, 15, 10,
            15, 20, 25, 30, 30, 30, 25, 20, 15,
            15, 20, 25, 30, 30, 30, 25, 20, 15,
            20, 25, 30, 35, 35, 35, 30, 25, 20,
            20, 25, 30, 35, 35, 35, 30, 25, 20,
            15, 20, 25, 30, 30, 30, 25, 20, 15,
            10, 20, 20, 25, 25, 25, 20, 20, 10,
            0, 10, 15, 20, 15, 20, 15, 10, 0,
        ],
        [
            0, 0, 10, 15, 20, 15, 10, 0, 0,
            5, 10, 10, 15, 15, 15, 10, 10, 5,
            0, 10, 15, 20, 25, 20, 15, 10, 0,
            0, 10, 15, 20, 25, 20, 15, 10, 0,
            0, 5, 10, 15, 20, 15, 10, 5, 0,
            0, 5, 10, 15, 20, 15, 10, 5, 0,
            0, 10, 15, 20, 25, 20, 15, 10, 0,
            0, 10, 15, 20, 25, 20, 15, 10, 0,
            5, 10, 10, 15, 15, 15, 10, 10, 5,
            0, 0, 10, 15, 20, 15, 10, 0, 0,
        ],
        [
            0, 0, 0, 0, 0, 0, 0, 0, 0,
            0, 0, 0, 0, 0, 0, 0, 0, 0,
            0, 0, 0, 0, 0, 0, 0, 0, 0,
            0, 0, 0, 0, 0, 0, 0, 0, 0,
            0, 0, 0, 0, 0, 0, 0, 0, 0,
            10, 0, 20, 0, 30, 0, 20, 0, 10,
            20, 20, 30, 40, 50, 40, 30, 20, 20,
            30, 35, 45, 60, 70, 60, 45, 35, 30,
            40, 50, 60, 80, 90, 80, 60, 50, 40,
            0, 0, 0, 0, 0, 0, 0, 0, 0,
        ],
    ];
    /// End-game piece-square values: the same as the middle-game ones.
    pub const EG: [[i32; 90]; 7] = [
        [
            0, 0, 0, -10, -10, -10, 0, 0, 0,
            0, 0, 0, -10, -10, -10, 0, 0, 0,
            0, 0, 0, -10, -10, -10, 0, 0, 0,
            0, 0, 0, 0, 0, 0, 0, 0, 0,
            0, 0, 0, 0, 0, 0, 0, 0, 0,
            0, 0, 0, 0, 0, 0, 0, 0, 0,
            0, 0, 0, 0, 0, 0, 0, 0, 0,
            0, 0, 0, 0, 0, 0, 0, 0, 0,
            0, 0, 0, 0, 0, 0, 0, 0, 0,
            0, 0, 0, 0, 0, 0, 0, 0, 0,
        ],
        [
            0, 0, 0, 0, 10, 0, 0, 0, 0,
            0, 0, 0, 0, 0, 0, 0, 0, 0,
            0, 0, 0, 0, 10, 0, 0, 0, 0,
            0, 0, 0, 0, 0, 0, 0, 0, 0,
            0, 0, 0, 0, 0, 0, 0, 0, 0,
            0, 0, 0, 0, 0, 0, 0, 0, 0,
            0, 0, 0, 0, 0, 0, 0, 0, 0,
            0, 0, 0, 0, 0, 0, 0, 0, 0,
            0, 0, 0, 0, 0, 0, 0, 0, 0,
            0, 0, 0, 0, 0, 0, 0, 0, 0,
        ],
        [
            0, 0, 10, 0, 0, 0, 10, 0, 0,
            0, 0, 0, 0, 0, 0, 0, 0, 0,
            20, 0, 0, 0, 30, 0, 0, 0, 20,
            0, 0, 0, 0, 0, 0, 0, 0, 0,
            0, 0, 10, 0, 0, 0, 10, 0, 0,
            0, 0, 0, 0, 0, 0, 0, 0, 0,
            0, 0, 0, 0, 0, 0, 0, 0, 0,
            0, 0, 0, 0, 0, 0, 0, 0, 0,
            0, 0, 0, 0, 0, 0, 0, 0, 0,
            0, 0, 0, 0, 0, 0, 0, 0, 0,
        ],
        [
            0, -25, 0, 0, 0, 0, 0, -25, 0,
            10, 15, 20, 20, 15, 20, 20, 15, 10,
            10, 20, 30, 35, 30, 35, 30, 20, 10,
            15, 25, 35, 40, 35, 40, 35, 25, 15,
            15, 25, 35, 40, 35, 40, 35, 25, 15,
            20, 30, 40, 50, 40, 50, 40, 30, 20,
            20, 30, 40, 50, 40, 50, 40, 30, 20,
            15, 25, 30, 35, 30, 35, 30, 25, 15,
            10, 15, 20, 20, 15, 20, 20, 15, 10,
            0, 0, 0, 0, 0, 0, 0, 0, 0,
        ],
        [
            -30, 15, 20, 25, 20, 25, 20, 15, -30,
            10, 15, 20, 25, 25, 25, 20, 15, 10,
            10, 15, 20, 25, 25, 25, 20, 15, 10,
            15, 20, 25, 30, 30, 30, 25, 20, 15,
            15, 20, 25, 30, 30, 30, 25, 20, 15,
            20, 25, 30, 35, 35, 35, 30, 25, 20,
            20, 25, 30, 35, 35, 35, 30, 25, 20,
            15, 20, 25, 30, 30, 30, 25, 20, 15,
            10, 20, 20, 25, 25, 25, 20, 20, 10,
            0, 10, 15, 20, 15, 20, 15, 10, 0,
        ],
        [
            0, 0, 10, 15, 20, 15, 10, 0, 0,
            5, 10, 10, 15, 15, 15, 10, 10, 5,
            0, 10, 15, 20, 25, 20, 15, 10, 0,
            0, 10, 15, 20, 25, 20, 15, 10, 0,
            0, 5, 10, 15, 20, 15, 10, 5, 0,
            0, 5, 10, 15, 20, 15, 10, 5, 0,
            0, 10, 15, 20, 25, 20, 15, 10, 0,
            0, 10, 15, 20, 25, 20, 15, 10, 0,
            5, 10, 10, 15, 15, 15, 10, 10, 5,
            0, 0, 10, 15, 20, 15, 10, 0, 0,
        ],
        [
            0, 0, 0, 0, 0, 0, 0, 0, 0,
            0, 0, 0, 0, 0, 0, 0, 0, 0,
            0, 0, 0, 0, 0, 0, 0, 0, 0,
            0, 0, 0, 0, 0, 0, 0, 0, 0,
            0, 0, 0, 0, 0, 0, 0, 0, 0,
            10, 0, 20, 0, 30, 0, 20, 0, 10,
            20, 20, 30, 40, 50, 40, 30, 20, 20,
            30, 35, 45, 60, 70, 60, 45, 35, 30,
            40, 50, 60, 80, 90, 80, 60, 50, 40,
            0, 0, 0, 0, 0, 0, 0, 0, 0,
        ],
    ];

    /// The piece-square values `(mg, eg)` of kind `role` of side `color` on
    /// `square`; Black's squares are read flipped.
    pub fn get(role: usize, color: usize, square: u8) -> (r: (i32, i32))
        requires
            role < 7,
            square < 90,
        ensures
            ({
                let idx = if color == 0 {
                    square as int
                } else {
                    flip_of(square as int)
                };
                r == (Self::MG[role as int][idx], Self::EG[role as int][idx])
            }),
    {
        let sq = Square(square);
        let index = if color == 0 {
            sq.index()
        } else {
            sq.flip().index()
        };
        (Self::MG[role][index], Self::EG[role][index])
    }
}

/// The pawn terms `(mg, eg)` of a pawn of side `color` on `sq`, before the
/// side's sign: crossing the river, how far, on the central files, inside
/// or beside the enemy palace.
pub open spec fn pawn_term(color: int, sq: int) -> (int, int) {
    let rank = sq / 9;
    let file = sq % 9;
    let crossed = if color == 0 {
        rank >= 5
    } else {
        rank <= 4
    };
    if !crossed {
        (0, 0)
    } else {
        let depth = if color == 0 {
            rank - 4
        } else {
            5 - rank
        };
        let centre = 2 <= file <= 6;
        let deep = if color == 0 {
            rank >= 7 && 3 <= file <= 5
        } else {
            rank <= 2 && 3 <= file <= 5
        };
        let flank = if color == 0 {
            rank >= 7 && (file == 2 || file == 6)
        } else {
            rank <= 2 && (file == 2 || file == 6)
        };
        let mg: int = 140 + depth * 60 + (if centre {
            120int
        } else {
            0int
        }) + (if deep {
            350int
        } else if flank {
            250int
        } else {
            0int
        });
        let eg: int = 260 + depth * 120 + (if centre {
            220int
        } else {
            0int
        }) + (if deep {
            650int
        } else if flank {
            480int
        } else {
            0int
        });
        (mg, eg)
    }
}

/// The summed pawn terms of side `color` over squares below `n`.
pub open spec fn pawn_sum(pos: Position, color: int, n: int) -> (int, int)
    decreases n,
{
    if n <= 0 {
        (0, 0)
    } else {
        let rest = pawn_sum(pos, color, n - 1);
        if pos.piece[color * 7 + 6].has(n - 1) {
            let t = pawn_term(color, n - 1);
            (rest.0 + t.0, rest.1 + t.1)
        } else {
            rest
        }
    }
}

proof fn lemma_pawn_term_bounds(color: int, sq: int)
    requires
        0 <= color < 2,
        0 <= sq < 90,
    ensures
        0 <= pawn_term(color, sq).0 <= 910,
        0 <= pawn_term(color, sq).1 <= 1730,
{
}

proof fn lemma_pawn_sum_bounds(pos: Position, color: int, n: int)
    requires
        0 <= color < 2,
        0 <= n <= 90,
    ensures
        0 <= pawn_sum(pos, color, n).0 <= 910 * n,
        0 <= pawn_sum(pos, color, n).1 <= 1730 * n,
    decreases n,
{
    if n > 0 {
        lemma_pawn_sum_bounds(pos, color, n - 1);
        lemma_pawn_term_bounds(color, n - 1);
    }
}

/// The pawn terms are the same for both sides seen from their own side of
/// the board: a Black pawn on `sq` scores what a Red pawn scores on the
/// square opposite, `89 - sq` (rank and file both mirrored).
pub proof fn lemma_pawn_mirror(sq: int)
    requires
        0 <= sq < 90,
    ensures
        pawn_term(1, sq) == pawn_term(0, 89 - sq),
{
    assert((89 - sq) / 9 == 9 - sq / 9);
    assert((89 - sq) % 9 == 8 - sq % 9);
}

/// A pawn scores only across the river: on its own half (ranks 0 to 4 for
/// Red, 5 to 9 for Black) it adds nothing, and on the enemy half it gets at
/// least the crossing bonus with one rank of depth (200 in the middle game,
/// 380 in the endgame), more the deeper it stands.
pub proof fn lemma_pawn_river(color: int, sq: int)
    requires
        0 <= color < 2,
        0 <= sq < 90,
    ensures
        (color == 0 && sq < 45) || (color == 1 && sq >= 45) ==> pawn_term(color, sq) == (0int, 0int),
        (color == 0 && sq >= 45) || (color == 1 && sq < 45) ==> pawn_term(color, sq).0 >= 200
            && pawn_term(color, sq).1 >= 380,
        color == 0 && sq >= 45 && sq + 9 < 90 ==> pawn_term(0, sq + 9).0 >= pawn_term(0, sq).0 + 60,
        color == 1 && sq < 45 && sq >= 9 ==> pawn_term(1, sq - 9).0 >= pawn_term(1, sq).0 + 60,
{
    assert((sq + 9) / 9 == sq / 9 + 1 && (sq + 9) % 9 == sq % 9);
    if sq >= 9 {
        assert((sq - 9) / 9 == sq / 9 - 1 && (sq - 9) % 9 == sq % 9);
    }
}

/// Pawn evaluation.
pub struct Pawn;

impl Pawn {
    /// The pawn score `(mg, eg)`: Red's pawn terms minus Black's.
    pub fn evaluate(pos: &Position) -> (r: (i32, i32))
        requires
            pos.wf(),
        ensures
            r.0 == pawn_sum(*pos, 0, 90).0 - pawn_sum(*pos, 1, 90).0,
            r.1 == pawn_sum(*pos, 0, 90).1 - pawn_sum(*pos, 1, 90).1,
    {
        let mut mg: i32 = 0;
        let mut eg: i32 = 0;
        let mut color: usize = 0;
        proof {
            lemma_pawn_sum_bounds(*pos, 0, 90);
            lemma_pawn_sum_bounds(*pos, 1, 90);
        }
        while color < 2
            invariant
                color <= 2,
                color == 0 ==> mg == 0 && eg == 0,
                color == 1 ==> mg == pawn_sum(*pos, 0, 90).0 && eg == pawn_sum(*pos, 0, 90).1,
                color == 2 ==> mg == pawn_sum(*pos, 0, 90).0 - pawn_sum(*pos, 1, 90).0
                    && eg == pawn_sum(*pos, 0, 90).1 - pawn_sum(*pos, 1, 90).1,
                0 <= pawn_sum(*pos, 0, 90).0 <= 910 * 90,
                0 <= pawn_sum(*pos, 0, 90).1 <= 1730 * 90,
                0 <= pawn_sum(*pos, 1, 90).0 <= 910 * 90,
                0 <= pawn_sum(*pos, 1, 90).1 <= 1730 * 90,
                pos.wf(),
            decreases 2 - color,
        {
            let pawns = pos.piece[color * 7 + 6];
            let mut amg: i32 = 0;
            let mut aeg: i32 = 0;
            let mut s: u8 = 0;
            while s < 90
                invariant
                    color < 2,
                    s <= 90,
                    pawns == pos.piece[color * 7 + 6],
                    amg == pawn_sum(*pos, color as int, s as int).0,
                    aeg == pawn_sum(*pos, color as int, s as int).1,
                    0 <= amg <= 910 * s,
                    0 <= aeg <= 1730 * s,
                decreases 90 - s,
            {
                if pawns.test(Square(s)) {
                    let rank = s / 9;
                    let file = s % 9;
                    let crossed = if color == 0 {
                        rank >= 5
                    } else {
                        rank <= 4
                    };
                    proof {
                        lemma_pawn_term_bounds(color as int, s as int);
                    }
                    if crossed {
                        let mut tm: i32 = 140;
                        let mut te: i32 = 260;
                        let depth: i32 = if color == 0 {
                            (rank - 4) as i32
                        } else {
                            (5 - rank) as i32
                        };
                        tm = tm + depth * 60;
                        te = te + depth * 120;
                        if file >= 2 && file <= 6 {
                            tm = tm + 120;
                            te = te + 220;
                        }
                        let in_deep_palace = if color == 0 {
                            rank >= 7 && file >= 3 && file <= 5
                        } else {
                            rank <= 2 && file >= 3 && file <= 5
                        };
                        let on_palace_flank = if color == 0 {
                            rank >= 7 && (file == 2 || file == 6)
                        } else {
                            rank <= 2 && (file == 2 || file == 6)
                        };
                        if in_deep_palace {
                            tm = tm + 350;
                            te = te + 650;
                        } else if on_palace_flank {
                            tm = tm + 250;
                            te = te + 480;
                        }
                        assert(tm == pawn_term(color as int, s as int).0);
                        assert(te == pawn_term(color as int, s as int).1);
                        amg = amg + tm;
                        aeg = aeg + te;
                    }
                }
                s += 1;
            }
            if color == 0 {
                mg = amg;
                eg = aeg;
            } else {
                mg = mg - amg;
                eg = eg - aeg;
            }
            color += 1;
        }
        (mg, eg)
    }
}

/// The handcrafted evaluator.
#[derive(Clone, Copy, Debug, Default)]
pub struct Hce;

impl Hce {
    /// The evaluator.
    pub fn new() -> (r: Self)
        ensures
            r == Hce,
    {
        Hce
    }
}

} // verus!
