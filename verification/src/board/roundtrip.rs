//! Reading back a written FEN record: the record that `Serializer::export`
//! writes for a legal position is one that `Parser::parse` accepts, and it
//! gives back the position's grid, side to move and counters; and a
//! checked record in canonical form is written back as itself.
use vstd::prelude::*;
use super::fen::{
    all_digits, decimal, digit_char, digit_value, digits_value, is_digit, is_space, parse_u16,
    pieces, placement_fault, rank_text, ranks_text, run_text, scan_chars, scan_ranks, step, words, Fault, blank,
    fen_text, parsed, audit_spec, board_result, fly_spec, token, turn_ok,
};
use super::piece::{code_of_letter, lemma_letter_roundtrip, piece_letter};
use super::position::{Position, tally};

verus! {

/// Every character of `t` is a decimal digit.
proof fn lemma_decimal_digits(n: nat)
    ensures
        decimal(n).len() > 0,
        all_digits(decimal(n)),
        n < 10 ==> decimal(n) == seq![digit_char(n as int)],
    decreases n,
{
    if n >= 10 {
        lemma_decimal_digits(n / 10);
        let d = decimal(n / 10);
        let t = d + seq![digit_char((n % 10) as int)];
        assert forall|i: int| 0 <= i < t.len() implies #[trigger] is_digit(t[i]) by {
            if i < d.len() {
                assert(is_digit(d[i]));
            }
        }
    }
}

/// The value of digits is unchanged by what follows them.
proof fn lemma_digits_prefix(t: Seq<char>, u: Seq<char>, n: nat)
    requires
        n <= t.len(),
    ensures
        digits_value(t + u, n) == digits_value(t, n),
    decreases n,
{
    if n > 0 {
        lemma_digits_prefix(t, u, (n - 1) as nat);
        assert((t + u)[n - 1] == t[n - 1]);
    }
}

/// The decimal notation of `n` reads back as `n`.
proof fn lemma_decimal_value(n: nat)
    ensures
        digits_value(decimal(n), decimal(n).len()) == n,
    decreases n,
{
    lemma_decimal_digits(n);
    if n >= 10 {
        lemma_decimal_value(n / 10);
        let d = decimal(n / 10);
        let c = digit_char((n % 10) as int);
        lemma_decimal_digits(n / 10);
        lemma_digits_prefix(d, seq![c], d.len());
        let t = d + seq![c];
        assert(decimal(n) == t);
        assert(t[d.len() as int] == c);
        assert(digit_value(c) == n % 10);
        assert(digits_value(t, t.len()) == digits_value(t, d.len()) * 10 + digit_value(c));
        assert((n / 10) * 10 + n % 10 == n);
        assert(digits_value(t, t.len()) == n);
    } else {
        assert(digit_value(digit_char(n as int)) == n);
        assert(digits_value(decimal(n), 0) == 0);
        assert(digits_value(decimal(n), 1) == n);
    }
}

/// A counter written in decimal reads back as itself.
pub proof fn lemma_counter_roundtrip(n: u16)
    ensures
        parse_u16(decimal(n as nat)) == Some(n),
{
    lemma_decimal_digits(n as nat);
    lemma_decimal_value(n as nat);
    let d = decimal(n as nat);
    assert(is_digit(d[0]));
}

/// Characters that are no space: a run `s[a..b]` after a space (or at the
/// start) adds one word to the words before it.
proof fn lemma_words_solid(s: Seq<char>, a: nat, b: nat)
    requires
        a < b <= s.len(),
        forall|i: int| a <= i < b ==> !is_space(#[trigger] s[i]),
        a == 0 || is_space(s[a - 1]),
    ensures
        words(s, b) == words(s, a).push((a as int, b as int)),
    decreases b - a,
{
    if b == a + 1 {
    } else {
        lemma_words_solid(s, a, (b - 1) as nat);
        assert(!is_space(s[b - 2]));
        let w = words(s, (b - 1) as nat);
        assert(w.update(w.len() - 1, (w.last().0, b as int)) =~= words(s, a).push((a as int, b as int)));
    }
}

/// A character of a written board: a digit or a piece letter.
pub open spec fn solid(c: char) -> bool {
    is_digit(c) || code_of_letter(c) < 14
}

proof fn lemma_solid(c: char)
    requires
        solid(c),
    ensures
        !is_space(c),
        c != '/',
        c != ' ',
{
}

/// A run of characters without `/` extends the last piece.
proof fn lemma_pieces_run(s: Seq<char>, lo: int, a: int, b: int)
    requires
        lo <= a <= b <= s.len(),
        forall|i: int| a <= i < b ==> #[trigger] s[i] != '/',
        pieces(s, lo, a).len() >= 1,
        pieces(s, lo, a).last() == (a, a),
    ensures
        pieces(s, lo, b) == pieces(s, lo, a).drop_last().push((a, b)),
    decreases b - a,
{
    let p = pieces(s, lo, a);
    if b > a {
        lemma_pieces_run(s, lo, a, b - 1);
        let q = pieces(s, lo, b - 1);
        assert(q == p.drop_last().push((a, b - 1)));
        assert(pieces(s, lo, b) == q.update(q.len() - 1, (q.last().0, b)));
        assert(q.update(q.len() - 1, (q.last().0, b)) =~= p.drop_last().push((a, b)));
    } else {
        assert(p =~= p.drop_last().push((a, a)));
    }
}

/// Reading `s[lo..hi]` is reading `s[lo..mid]`, then `s[mid..hi]`.
proof fn lemma_scan_split(
    s: Seq<char>,
    lo: int,
    mid: int,
    hi: int,
    rank: int,
    st: (int, bool, int, int, Seq<u8>),
)
    requires
        lo <= mid <= hi,
    ensures
        scan_chars(s, lo, hi, rank, st) == match scan_chars(s, lo, mid, rank, st) {
            Err(f) => Err(f),
            Ok(t) => scan_chars(s, mid, hi, rank, t),
        },
    decreases hi - mid,
{
    if hi > mid {
        lemma_scan_split(s, lo, mid, hi - 1, rank, st);
    }
}

/// Squares `b..c` hold no `p`: the count up to `c` is the count up to `b`.
proof fn lemma_tally_skip(g: Seq<u8>, p: u8, b: nat, c: nat)
    requires
        b <= c <= g.len(),
        forall|i: int| b <= i < c ==> #[trigger] g[i] != p,
    ensures
        tally(g, p, c) == tally(g, p, b),
    decreases c - b,
{
    if c > b {
        lemma_tally_skip(g, p, b, (c - 1) as nat);
    }
}

/// `gg` with the pieces of `g` on the squares of `rank` from file `a` on.
pub open spec fn filled(gg: Seq<u8>, g: Seq<u8>, rank: int, a: int) -> Seq<u8> {
    Seq::new(
        90,
        |i: int| if rank * 9 + a <= i < rank * 9 + 9 && g[i] < 14 {
            g[i]
        } else {
            gg[i]
        },
    )
}

/// The squares hold piece codes or the empty code, and every piece stands
/// where it may.
pub open spec fn placed(g: Seq<u8>) -> bool {
    &&& g.len() == 90
    &&& forall|i: int| 0 <= i < 90 ==> #[trigger] g[i] <= 14
    &&& forall|r: int, f: int|
        0 <= r < 10 && 0 <= f < 9 && #[trigger] g[r * 9 + f] < 14 ==> placement_fault(
            g[r * 9 + f],
            r,
            f,
        ) is None
}

/// The characters of a written rank are digits and piece letters, one at
/// least when squares or a run remain.
proof fn lemma_rank_chars(g: Seq<u8>, rank: int, f: int, count: nat)
    requires
        placed(g),
        0 <= rank < 10,
        0 <= f <= 9,
        count <= f,
    ensures
        forall|i: int| 0 <= i < rank_text(g, rank, f, count).len() ==> solid(
            #[trigger] rank_text(g, rank, f, count)[i],
        ),
        (f < 9 || count > 0) ==> rank_text(g, rank, f, count).len() > 0,
    decreases 9 - f,
{
    lemma_decimal_digits(count);
    if f >= 9 {
    } else if g[rank * 9 + f] >= 14 {
        lemma_rank_chars(g, rank, f + 1, count + 1);
    } else {
        lemma_rank_chars(g, rank, f + 1, 0);
        let p = g[rank * 9 + f];
        lemma_letter_roundtrip(p);
        let t = run_text(count) + seq![piece_letter(p as int)] + rank_text(g, rank, f + 1, 0);
        assert forall|i: int| 0 <= i < t.len() implies solid(#[trigger] t[i]) by {
            if i < run_text(count).len() {
                assert(is_digit(decimal(count)[i]));
            } else if i > run_text(count).len() {
                assert(t[i] == rank_text(g, rank, f + 1, 0)[i - run_text(count).len() - 1]);
            }
        }
    }
}

/// Reading one character is one step.
proof fn lemma_scan_one(s: Seq<char>, a: int, rank: int, st: (int, bool, int, int, Seq<u8>))
    ensures
        scan_chars(s, a, a + 1, rank, st) == step(st, s[a], rank),
{
    assert(scan_chars(s, a, a, rank, st) == Ok::<(int, bool, int, int, Seq<u8>), Fault>(st));
}

/// Reading the run before a piece and the piece's letter: the file moves
/// to just after the piece, which lands on the grid and is counted if a
/// king.
proof fn lemma_scan_head(
    s: Seq<char>,
    lo: int,
    g: Seq<u8>,
    rank: int,
    f: int,
    count: nat,
    k0: int,
    k1: int,
    gg: Seq<u8>,
)
    requires
        placed(g),
        0 <= rank < 10,
        0 <= f < 9,
        count <= f,
        g[rank * 9 + f] < 14,
        0 <= lo,
        lo + run_text(count).len() + 1 <= s.len(),
        forall|i: int| 0 <= i < run_text(count).len() ==> s[lo + i] == #[trigger] run_text(count)[i],
        s[lo + run_text(count).len()] == piece_letter(g[rank * 9 + f] as int),
    ensures
        scan_chars(s, lo, lo + run_text(count).len() + 1, rank, (f - count, false, k0, k1, gg)) == Ok::<
            (int, bool, int, int, Seq<u8>),
            Fault,
        >(
            (
                f + 1,
                false,
                if g[rank * 9 + f] == 0 {
                    k0 + 1
                } else {
                    k0
                },
                if g[rank * 9 + f] == 7 {
                    k1 + 1
                } else {
                    k1
                },
                gg.update(rank * 9 + f, g[rank * 9 + f]),
            ),
        ),
{
    let p = g[rank * 9 + f];
    let st = (f - count, false, k0, k1, gg);
    let rl = run_text(count).len() as int;
    lemma_decimal_digits(count);
    lemma_letter_roundtrip(p);
    let after_run = (f, count > 0, k0, k1, gg);
    if count > 0 {
        let c = digit_char(count as int);
        assert(run_text(count) == seq![c]);
        assert(s[lo + 0] == run_text(count)[0]);
        assert(is_digit(c) && digit_value(c) == count as int);
        lemma_scan_one(s, lo, rank, st);
    } else {
        assert(scan_chars(s, lo, lo, rank, st) == Ok::<(int, bool, int, int, Seq<u8>), Fault>(st));
    }
    assert(scan_chars(s, lo, lo + rl, rank, st) == Ok::<(int, bool, int, int, Seq<u8>), Fault>(after_run));
    lemma_scan_split(s, lo, lo + rl, lo + rl + 1, rank, st);
    lemma_scan_one(s, lo + rl, rank, after_run);
    assert(!is_digit(piece_letter(p as int)));
    assert(placement_fault(g[rank * 9 + f], rank, f) is None);
}

/// Reading a written rank from file `f - count` fills the rank's squares
/// from there, counts its kings, and ends on file 9.
proof fn lemma_scan_rank(
    s: Seq<char>,
    lo: int,
    g: Seq<u8>,
    rank: int,
    f: int,
    count: nat,
    k0: int,
    k1: int,
    gg: Seq<u8>,
)
    requires
        placed(g),
        gg.len() == 90,
        0 <= rank < 10,
        0 <= f <= 9,
        count <= f,
        forall|j: int| f - count <= j < f ==> #[trigger] g[rank * 9 + j] >= 14,
        0 <= lo,
        lo + rank_text(g, rank, f, count).len() <= s.len(),
        forall|i: int|
            0 <= i < rank_text(g, rank, f, count).len() ==> s[lo + i] == #[trigger] rank_text(
                g,
                rank,
                f,
                count,
            )[i],
    ensures
        scan_chars(s, lo, lo + rank_text(g, rank, f, count).len(), rank, (f - count, false, k0, k1, gg))
            matches Ok((file, d, a, b, g2)) && file == 9 && a == k0 + tally(g, 0, (rank * 9 + 9) as nat)
            - tally(g, 0, (rank * 9 + f - count) as nat) && b == k1 + tally(g, 7, (rank * 9 + 9) as nat)
            - tally(g, 7, (rank * 9 + f - count) as nat) && g2 == filled(gg, g, rank, f - count),
    decreases 9 - f,
{
    let r9 = rank * 9;
    let st = (f - count, false, k0, k1, gg);
    lemma_decimal_digits(count);
    assert forall|j: int| r9 + f - count <= j < r9 + f implies #[trigger] g[j] != 0u8 && g[j] != 7u8 by {
        assert(g[rank * 9 + (j - r9)] >= 14);
    }
    lemma_tally_skip(g, 0, (r9 + f - count) as nat, (r9 + f) as nat);
    lemma_tally_skip(g, 7, (r9 + f - count) as nat, (r9 + f) as nat);
    if f >= 9 {
        if count > 0 {
            let c = digit_char(count as int);
            assert(rank_text(g, rank, f, count) == seq![c]);
            assert(rank_text(g, rank, f, count)[0] == c);
            assert(s[lo + 0] == c);
            assert(is_digit(c) && digit_value(c) == count as int);
            lemma_scan_one(s, lo, rank, st);
        }
        assert(filled(gg, g, rank, f - count) =~= gg) by {
            assert forall|i: int| r9 + f - count <= i < r9 + 9 implies !(#[trigger] g[i] < 14) by {
                assert(g[rank * 9 + (i - r9)] >= 14);
            }
        }
    } else if g[r9 + f] >= 14 {
        assert(g[rank * 9 + f] >= 14);
        lemma_scan_rank(s, lo, g, rank, f + 1, count + 1, k0, k1, gg);
    } else {
        let p = g[r9 + f];
        let run = run_text(count);
        let rl = run.len() as int;
        let rest = rank_text(g, rank, f + 1, 0);
        let t = rank_text(g, rank, f, count);
        assert(t == run + seq![piece_letter(p as int)] + rest);
        let end = lo + t.len();
        assert forall|i: int| 0 <= i < run.len() implies s[lo + i] == #[trigger] run[i] by {
            assert(s[lo + i] == t[i]);
        }
        assert(s[lo + rl] == t[rl]);
        lemma_scan_head(s, lo, g, rank, f, count, k0, k1, gg);
        let g1 = gg.update(r9 + f, p);
        let k0n = if p == 0 {
            k0 + 1
        } else {
            k0
        };
        let k1n = if p == 7 {
            k1 + 1
        } else {
            k1
        };
        lemma_scan_split(s, lo, lo + rl + 1, end, rank, st);
        assert forall|i: int| 0 <= i < rest.len() implies s[lo + rl + 1 + i] == #[trigger] rest[i] by {
            assert(s[lo + (rl + 1 + i)] == t[rl + 1 + i]);
        }
        lemma_scan_rank(s, lo + rl + 1, g, rank, f + 1, 0, k0n, k1n, g1);
        assert(lo + rl + 1 + rest.len() == end);
        assert(filled(g1, g, rank, f + 1) =~= filled(gg, g, rank, f - count)) by {
            assert forall|i: int| r9 + f - count <= i < r9 + f implies !(#[trigger] g[i] < 14) by {
                assert(g[rank * 9 + (i - r9)] >= 14);
            }
        }
    }
}

/// Where the `j`-th written rank (rank `9 - j`) starts.
pub open spec fn start(g: Seq<u8>, j: nat) -> int {
    ranks_text(g, j).len() as int
}

/// The `j`-th written rank (rank `9 - j`).
pub open spec fn row(g: Seq<u8>, j: nat) -> Seq<char> {
    rank_text(g, 9 - j, 0, 0)
}

/// The spans of the first `k` written ranks.
pub open spec fn spans(g: Seq<u8>, k: nat) -> Seq<(int, int)> {
    Seq::new(k, |j: int| (start(g, j as nat), start(g, j as nat) + row(g, j as nat).len()))
}

/// The grid after reading `k` ranks from rank 9 down: those ranks as in
/// `g`, the rest empty.
pub open spec fn upto(g: Seq<u8>, k: nat) -> Seq<u8> {
    Seq::new(90, |i: int| if i >= 9 * (10 - k) { g[i] } else { 14u8 })
}

proof fn lemma_ranks_prefix(g: Seq<u8>, k: nat, m: nat)
    requires
        k <= m,
    ensures
        ranks_text(g, k).len() <= ranks_text(g, m).len(),
        ranks_text(g, m).subrange(0, ranks_text(g, k).len() as int) == ranks_text(g, k),
    decreases m - k,
{
    if m > k {
        lemma_ranks_prefix(g, k, (m - 1) as nat);
        let a = ranks_text(g, k);
        let b = ranks_text(g, (m - 1) as nat);
        let c = ranks_text(g, m);
        assert(c.subrange(0, b.len() as int) =~= b);
        assert(c.subrange(0, a.len() as int) =~= b.subrange(0, a.len() as int));
    }
}

/// In a record that starts with the written board, the `j`-th written rank
/// sits at its start, followed by `/` unless it is the last.
proof fn lemma_row_at(s: Seq<char>, g: Seq<u8>, j: nat)
    requires
        j < 10,
        ranks_text(g, 10).len() <= s.len(),
        s.subrange(0, ranks_text(g, 10).len() as int) == ranks_text(g, 10),
    ensures
        start(g, j + 1) == start(g, j) + row(g, j).len() + (if j + 1 < 10 {
            1int
        } else {
            0int
        }),
        start(g, j + 1) <= ranks_text(g, 10).len(),
        forall|i: int| 0 <= i < row(g, j).len() ==> s[start(g, j) + i] == #[trigger] row(g, j)[i],
        j + 1 < 10 ==> s[start(g, j) + row(g, j).len()] == '/',
{
    lemma_ranks_prefix(g, j + 1, 10);
    let t = ranks_text(g, j + 1);
    assert(t == ranks_text(g, j) + row(g, j) + if j + 1 < 10 {
        seq!['/']
    } else {
        seq![]
    });
    assert forall|i: int| 0 <= i < row(g, j).len() implies s[start(g, j) + i] == #[trigger] row(g, j)[i] by {
        assert(s[start(g, j) + i] == s.subrange(0, ranks_text(g, 10).len() as int)[start(g, j) + i]);
        assert(t[start(g, j) + i] == row(g, j)[i]);
    }
    if j + 1 < 10 {
        let at = start(g, j) + row(g, j).len();
        assert(s[at] == s.subrange(0, ranks_text(g, 10).len() as int)[at]);
        assert(t[at] == '/');
    }
}

/// The `/`-separated pieces of the written board are its ten ranks.
proof fn lemma_board_pieces(s: Seq<char>, g: Seq<u8>, k: nat)
    requires
        placed(g),
        k <= 10,
        ranks_text(g, 10).len() <= s.len(),
        s.subrange(0, ranks_text(g, 10).len() as int) == ranks_text(g, 10),
    ensures
        pieces(s, 0, start(g, k)) == spans(g, k) + if k < 10 {
            seq![(start(g, k), start(g, k))]
        } else {
            seq![]
        },
    decreases k,
{
    if k == 0 {
        assert(pieces(s, 0, 0) =~= spans(g, 0) + seq![(0int, 0int)]);
    } else {
        let j = (k - 1) as nat;
        lemma_board_pieces(s, g, j);
        lemma_row_at(s, g, j);
        lemma_rank_chars(g, 9 - j, 0, 0);
        let a = start(g, j);
        let b = a + row(g, j).len();
        assert forall|i: int| a <= i < b implies #[trigger] s[i] != '/' by {
            assert(s[a + (i - a)] == row(g, j)[i - a]);
            lemma_solid(row(g, j)[i - a]);
        }
        lemma_pieces_run(s, 0, a, b);
        assert(spans(g, j).push((a, b)) =~= spans(g, k));
        if k < 10 {
            assert(pieces(s, 0, b + 1) == pieces(s, 0, b).push((b + 1, b + 1)));
        }
        assert(pieces(s, 0, start(g, k)) =~= spans(g, k) + if k < 10 {
            seq![(start(g, k), start(g, k))]
        } else {
            seq![]
        });
    }
}

/// Reading the ten written ranks gives back the grid and its kings.
proof fn lemma_board_scan(s: Seq<char>, g: Seq<u8>, k: nat)
    requires
        placed(g),
        k <= 10,
        ranks_text(g, 10).len() <= s.len(),
        s.subrange(0, ranks_text(g, 10).len() as int) == ranks_text(g, 10),
    ensures
        scan_ranks(s, spans(g, 10), k) == Ok::<(int, int, Seq<u8>), Fault>(
            (
                tally(g, 0, 90) - tally(g, 0, (9 * (10 - k)) as nat),
                tally(g, 7, 90) - tally(g, 7, (9 * (10 - k)) as nat),
                upto(g, k),
            ),
        ),
    decreases k,
{
    if k == 0 {
        assert(upto(g, 0) =~= blank());
    } else {
        let j = (k - 1) as nat;
        lemma_board_scan(s, g, j);
        lemma_row_at(s, g, j);
        let rank = 9 - j;
        let sp = spans(g, 10)[j as int];
        assert(sp == (start(g, j), start(g, j) + row(g, j).len()));
        let k0 = tally(g, 0, 90) - tally(g, 0, (9 * (10 - j)) as nat);
        let k1 = tally(g, 7, 90) - tally(g, 7, (9 * (10 - j)) as nat);
        lemma_scan_rank(s, start(g, j), g, rank, 0, 0, k0, k1, upto(g, j));
        assert(rank * 9 + 9 == 9 * (10 - j));
        assert(rank * 9 == 9 * (10 - k));
        assert(filled(upto(g, j), g, rank, 0) =~= upto(g, k));
    }
}

/// The written board has no space in it.
proof fn lemma_board_solid(g: Seq<u8>, k: nat)
    requires
        placed(g),
        k <= 10,
    ensures
        forall|i: int| 0 <= i < ranks_text(g, k).len() ==> !is_space(#[trigger] ranks_text(g, k)[i]),
        k > 0 ==> ranks_text(g, k).len() > 0,
    decreases k,
{
    if k > 0 {
        let j = (k - 1) as nat;
        lemma_board_solid(g, j);
        lemma_rank_chars(g, 9 - j, 0, 0);
        let a = ranks_text(g, j);
        let t = ranks_text(g, k);
        assert(t == a + row(g, j) + if k < 10 {
            seq!['/']
        } else {
            seq![]
        });
        assert forall|i: int| 0 <= i < t.len() implies !is_space(#[trigger] t[i]) by {
            if i < a.len() {
                assert(t[i] == a[i]);
            } else if i < a.len() + row(g, j).len() {
                assert(t[i] == row(g, j)[i - a.len()]);
                lemma_solid(row(g, j)[i - a.len()]);
            }
        }
    }
}

/// Decimal digits are no spaces.
proof fn lemma_decimal_solid(n: nat)
    ensures
        forall|i: int| 0 <= i < decimal(n).len() ==> !is_space(#[trigger] decimal(n)[i]),
{
    lemma_decimal_digits(n);
    assert forall|i: int| 0 <= i < decimal(n).len() implies !is_space(#[trigger] decimal(n)[i]) by {
        assert(is_digit(decimal(n)[i]));
    }
}

/// A legal position written as FEN reads back as itself: for a position
/// whose squares hold piece codes or the empty code, whose pieces stand
/// where they may, with one king per side not facing each other and a side
/// to move of 0 or 1, the record that `Serializer::export` writes is one
/// that `Parser::parse` accepts, and it gives back the grid, the side to
/// move, the half-move clock and the ply.
pub proof fn lemma_fen_roundtrip(p: Position)
    requires
        placed(p.grid@),
        tally(p.grid@, 0, 90) == 1,
        tally(p.grid@, 7, 90) == 1,
        !fly_spec(p.grid@),
        p.side < 2,
    ensures
        audit_spec(fen_text(p)) is Ok,
        parsed(fen_text(p)) == Some((p.grid@, p.side, p.rule, p.ply)),
{
    let g = p.grid@;
    let b = ranks_text(g, 10);
    let sc = if p.side == 0 {
        'w'
    } else {
        'b'
    };
    let d1 = decimal(p.rule as nat);
    let d2 = decimal(p.ply as nat);
    let t = fen_text(p);
    let l = b.len() as int;
    let n1 = d1.len() as int;
    let n2 = d2.len() as int;
    assert(t == b + seq![' ', sc] + seq![' ', '-', ' ', '-', ' '] + d1 + seq![' '] + d2);
    assert(t.len() == l + 8 + n1 + n2);
    lemma_board_solid(g, 10);
    lemma_decimal_solid(p.rule as nat);
    lemma_decimal_solid(p.ply as nat);
    lemma_decimal_digits(p.rule as nat);
    lemma_decimal_digits(p.ply as nat);
    assert(t.subrange(0, l) =~= b);
    // the words of the record
    assert forall|i: int| 0 <= i < l implies !is_space(#[trigger] t[i]) by {
        assert(t[i] == b[i]);
    }
    lemma_words_solid(t, 0, l as nat);
    assert(words(t, 0) =~= Seq::<(int, int)>::empty());
    assert(is_space(t[l]));
    assert(words(t, (l + 1) as nat) == words(t, l as nat));
    assert(!is_space(t[l + 1]));
    lemma_words_solid(t, (l + 1) as nat, (l + 2) as nat);
    assert(is_space(t[l + 2]));
    assert(words(t, (l + 3) as nat) == words(t, (l + 2) as nat));
    assert(!is_space(t[l + 3]));
    lemma_words_solid(t, (l + 3) as nat, (l + 4) as nat);
    assert(is_space(t[l + 4]));
    assert(words(t, (l + 5) as nat) == words(t, (l + 4) as nat));
    assert(!is_space(t[l + 5]));
    lemma_words_solid(t, (l + 5) as nat, (l + 6) as nat);
    assert(is_space(t[l + 6]));
    assert(words(t, (l + 7) as nat) == words(t, (l + 6) as nat));
    assert forall|i: int| l + 7 <= i < l + 7 + n1 implies !is_space(#[trigger] t[i]) by {
        assert(t[i] == d1[i - l - 7]);
    }
    lemma_words_solid(t, (l + 7) as nat, (l + 7 + n1) as nat);
    assert(is_space(t[l + 7 + n1]));
    assert(words(t, (l + 8 + n1) as nat) == words(t, (l + 7 + n1) as nat));
    assert forall|i: int| l + 8 + n1 <= i < l + 8 + n1 + n2 implies !is_space(#[trigger] t[i]) by {
        assert(t[i] == d2[i - l - 8 - n1]);
    }
    lemma_words_solid(t, (l + 8 + n1) as nat, t.len());
    let w = words(t, t.len());
    assert(w =~= seq![
        (0, l),
        (l + 1, l + 2),
        (l + 3, l + 4),
        (l + 5, l + 6),
        (l + 7, l + 7 + n1),
        (l + 8 + n1, l + 8 + n1 + n2),
    ]);
    // the board
    lemma_board_pieces(t, g, 10);
    assert(spans(g, 10) + seq![] =~= spans(g, 10));
    lemma_board_scan(t, g, 10);
    assert(upto(g, 10) =~= g);
    assert(tally(g, 0, 0) == 0 && tally(g, 7, 0) == 0);
    assert(board_result(t) == Ok::<(int, int, Seq<u8>), Fault>((1, 1, g)));
    // the fields
    assert(token(t, w[1]) =~= seq![sc]);
    assert(turn_ok(token(t, w[1])));
    assert(token(t, w[4]) =~= d1);
    assert(token(t, w[5]) =~= d2);
    lemma_counter_roundtrip(p.rule);
    lemma_counter_roundtrip(p.ply);
}

/// A written record writes back to itself: for a legal position `p` (as in
/// `lemma_fen_roundtrip`), a position `q` holding what `Parser::parse`
/// reads from `Serializer::export(p)` (its grid, side to move, clock and
/// ply) is written as the very same record.
pub proof fn lemma_parse_then_export(p: Position, q: Position)
    requires
        placed(p.grid@),
        tally(p.grid@, 0, 90) == 1,
        tally(p.grid@, 7, 90) == 1,
        !fly_spec(p.grid@),
        p.side < 2,
        parsed(fen_text(p)) == Some((q.grid@, q.side, q.rule, q.ply)),
    ensures
        fen_text(q) == fen_text(p),
{
    lemma_fen_roundtrip(p);
    assert(q.grid@ == p.grid@);
}

/// Reading a rank changes only the squares of that rank from the file
/// reached on: the file never goes back, and every other square keeps its
/// code.
proof fn lemma_scan_frame(s: Seq<char>, lo: int, hi: int, rank: int, st: (int, bool, int, int, Seq<u8>))
    requires
        0 <= rank < 10,
        0 <= st.0,
        st.4.len() == 90,
        scan_chars(s, lo, hi, rank, st) is Ok,
    ensures
        ({
            let r = scan_chars(s, lo, hi, rank, st)->Ok_0;
            &&& r.4.len() == 90
            &&& r.0 >= st.0
            &&& forall|x: int| 0 <= x < 90 && !(rank * 9 + st.0 <= x < rank * 9 + 9) ==> #[trigger] r.4[x] == st.4[x]
        }),
    decreases hi - lo,
{
    if hi > lo {
        lemma_scan_frame(s, lo, hi - 1, rank, st);
    }
}

/// A letter that names a piece is the letter written for that piece.
proof fn lemma_letter_back(c: char)
    requires
        code_of_letter(c) < 14,
    ensures
        piece_letter(code_of_letter(c) as int) == c,
{
}

/// A digit from 1 to 9 is the decimal notation of its value.
proof fn lemma_digit_back(c: char)
    requires
        is_digit(c),
        digit_value(c) >= 1,
    ensures
        decimal(digit_value(c) as nat) == seq![c],
        run_text(digit_value(c) as nat) == seq![c],
{
    assert(digit_char(digit_value(c)) == c);
}

/// Empty squares `f..f + k` of a rank only lengthen the run before them.
proof fn lemma_rank_skip(h: Seq<u8>, rank: int, f: int, count: nat, k: nat)
    requires
        0 <= f,
        f + k <= 9,
        forall|x: int| f <= x < f + k ==> #[trigger] h[rank * 9 + x] >= 14,
    ensures
        rank_text(h, rank, f, count) == rank_text(h, rank, f + k, count + k),
    decreases k,
{
    if k > 0 {
        assert(h[rank * 9 + f] >= 14);
        lemma_rank_skip(h, rank, f + 1, count + 1, (k - 1) as nat);
    }
}

/// The text of a rank depends on that rank's squares alone.
proof fn lemma_rank_same(h1: Seq<u8>, h2: Seq<u8>, rank: int, f: int, count: nat)
    requires
        0 <= f,
        forall|x: int| f <= x < 9 ==> #[trigger] h1[rank * 9 + x] == h2[rank * 9 + x],
    ensures
        rank_text(h1, rank, f, count) == rank_text(h2, rank, f, count),
    decreases 9 - f,
{
    if f < 9 {
        assert(h1[rank * 9 + f] == h2[rank * 9 + f]);
        lemma_rank_same(h1, h2, rank, f + 1, count + 1);
        lemma_rank_same(h1, h2, rank, f + 1, 0);
    }
}

/// Reading on from `i` is reading `s[i]`, then the rest.
proof fn lemma_scan_first(s: Seq<char>, i: int, e: int, rank: int, st: (int, bool, int, int, Seq<u8>))
    requires
        i < e,
    ensures
        scan_chars(s, i, e, rank, st) == match step(st, s[i], rank) {
            Err(f) => Err(f),
            Ok(t) => scan_chars(s, i + 1, e, rank, t),
        },
{
    lemma_scan_split(s, i, i + 1, e, rank, st);
    lemma_scan_one(s, i, rank, st);
}

/// A rank that reads without fault to its ninth file is written back as
/// the characters read: from a state after no digit, whose remaining
/// squares on the rank are empty, the text of the rank from the file
/// reached is the rest of the characters.
proof fn lemma_rank_back(s: Seq<char>, i: int, e: int, rank: int, st: (int, bool, int, int, Seq<u8>))
    requires
        0 <= i <= e <= s.len(),
        0 <= rank < 10,
        0 <= st.0 <= 9,
        !st.1,
        st.4.len() == 90,
        scan_chars(s, i, e, rank, st) is Ok,
        scan_chars(s, i, e, rank, st)->Ok_0.0 == 9,
        forall|f: int| st.0 <= f < 9 ==> #[trigger] st.4[rank * 9 + f] == 14,
    ensures
        rank_text(scan_chars(s, i, e, rank, st)->Ok_0.4, rank, st.0, 0) == s.subrange(i, e),
    decreases e - i,
{
    let h = scan_chars(s, i, e, rank, st)->Ok_0.4;
    if i == e {
        assert(s.subrange(i, e) =~= Seq::<char>::empty());
    } else {
        lemma_scan_first(s, i, e, rank, st);
        let c = s[i];
        let t1 = step(st, c, rank)->Ok_0;
        lemma_scan_frame(s, i + 1, e, rank, t1);
        if is_digit(c) {
            let d = digit_value(c);
            lemma_digit_back(c);
            assert(t1.0 == st.0 + d);
            if i + 1 == e {
                assert(h == st.4);
                lemma_rank_skip(h, rank, st.0, 0, d as nat);
                assert(s.subrange(i, e) =~= seq![c]);
            } else {
                lemma_scan_first(s, i + 1, e, rank, t1);
                let c2 = s[i + 1];
                let t2 = step(t1, c2, rank)->Ok_0;
                let p = code_of_letter(c2);
                assert(!is_digit(c2));
                assert(p < 14 && t1.0 < 9);
                lemma_scan_frame(s, i + 2, e, rank, t2);
                assert forall|f: int| t2.0 <= f < 9 implies #[trigger] t2.4[rank * 9 + f] == 14 by {
                    assert(t2.4[rank * 9 + f] == st.4[rank * 9 + f]);
                }
                lemma_rank_back(s, i + 2, e, rank, t2);
                assert forall|x: int| st.0 <= x < st.0 + d implies #[trigger] h[rank * 9 + x] >= 14 by {
                    assert(t2.4[rank * 9 + x] == st.4[rank * 9 + x]);
                    assert(h[rank * 9 + x] == t2.4[rank * 9 + x]);
                }
                lemma_rank_skip(h, rank, st.0, 0, d as nat);
                assert(h[rank * 9 + t1.0] == t2.4[rank * 9 + t1.0]);
                assert(h[rank * 9 + t1.0] == p);
                lemma_letter_back(c2);
                assert(s.subrange(i, e) =~= seq![c] + seq![c2] + s.subrange(i + 2, e));
            }
        } else {
            let p = code_of_letter(c);
            assert(p < 14 && st.0 < 9);
            assert forall|f: int| t1.0 <= f < 9 implies #[trigger] t1.4[rank * 9 + f] == 14 by {
                assert(t1.4[rank * 9 + f] == st.4[rank * 9 + f]);
            }
            lemma_rank_back(s, i + 1, e, rank, t1);
            assert(h[rank * 9 + st.0] == t1.4[rank * 9 + st.0]);
            lemma_letter_back(c);
            assert(s.subrange(i, e) =~= seq![c] + s.subrange(i + 1, e));
        }
    }
}

/// A board that reads without fault up to rank `k` reads without fault up
/// to every earlier rank; the grid read so far has the ranks not yet read
/// empty.
proof fn lemma_ranks_read(s: Seq<char>, ranks: Seq<(int, int)>, k: nat)
    requires
        k <= 10,
        scan_ranks(s, ranks, k) is Ok,
    ensures
        forall|m: nat| m <= k ==> #[trigger] scan_ranks(s, ranks, m) is Ok,
        scan_ranks(s, ranks, k)->Ok_0.2.len() == 90,
        forall|x: int| 0 <= x < 9 * (10 - k) ==> #[trigger] scan_ranks(s, ranks, k)->Ok_0.2[x] == 14,
    decreases k,
{
    if k > 0 {
        lemma_ranks_read(s, ranks, (k - 1) as nat);
        let (k0, k1, g) = scan_ranks(s, ranks, (k - 1) as nat)->Ok_0;
        let sp = ranks[k - 1];
        lemma_scan_frame(s, sp.0, sp.1, 9 - (k - 1), (0, false, k0, k1, g));
        assert forall|m: nat| m <= k implies #[trigger] scan_ranks(s, ranks, m) is Ok by {
            if m < k {
                assert(scan_ranks(s, ranks, m) is Ok);
            }
        }
    }
}

/// Reading later ranks leaves rank `9 - j` as its own reading left it.
proof fn lemma_ranks_keep(s: Seq<char>, ranks: Seq<(int, int)>, j: nat, k: nat)
    requires
        j < k <= 10,
        scan_ranks(s, ranks, k) is Ok,
    ensures
        scan_ranks(s, ranks, j + 1) is Ok,
        forall|f: int| 0 <= f < 9 ==> #[trigger] scan_ranks(s, ranks, k)->Ok_0.2[(9 - j) * 9 + f]
            == scan_ranks(s, ranks, j + 1)->Ok_0.2[(9 - j) * 9 + f],
    decreases k,
{
    lemma_ranks_read(s, ranks, k);
    if k > j + 1 {
        lemma_ranks_keep(s, ranks, j, (k - 1) as nat);
        lemma_ranks_read(s, ranks, (k - 1) as nat);
        let (k0, k1, g) = scan_ranks(s, ranks, (k - 1) as nat)->Ok_0;
        let sp = ranks[k - 1];
        lemma_scan_frame(s, sp.0, sp.1, 9 - (k - 1), (0, false, k0, k1, g));
        assert forall|f: int| 0 <= f < 9 implies #[trigger] scan_ranks(s, ranks, k)->Ok_0.2[(9 - j) * 9 + f]
            == scan_ranks(s, ranks, j + 1)->Ok_0.2[(9 - j) * 9 + f] by {
            assert(scan_ranks(s, ranks, k)->Ok_0.2[(9 - j) * 9 + f] == g[(9 - j) * 9 + f]);
        }
    }
}

/// In a board read without fault, rank `9 - j` is written back as the
/// characters of its span.
proof fn lemma_rank_of_board(s: Seq<char>, ranks: Seq<(int, int)>, j: nat)
    requires
        j < 10,
        scan_ranks(s, ranks, 10) is Ok,
        0 <= ranks[j as int].0 <= ranks[j as int].1 <= s.len(),
    ensures
        rank_text(scan_ranks(s, ranks, 10)->Ok_0.2, 9 - j, 0, 0) == s.subrange(
            ranks[j as int].0,
            ranks[j as int].1,
        ),
{
    lemma_ranks_keep(s, ranks, j, 10);
    lemma_ranks_read(s, ranks, 10);
    lemma_ranks_read(s, ranks, j);
    let (k0, k1, g) = scan_ranks(s, ranks, j)->Ok_0;
    let sp = ranks[j as int];
    let st = (0int, false, k0, k1, g);
    assert(scan_ranks(s, ranks, j + 1) is Ok);
    assert(scan_chars(s, sp.0, sp.1, 9 - j, st) is Ok);
    assert forall|f: int| st.0 <= f < 9 implies #[trigger] st.4[(9 - j) * 9 + f] == 14 by {
        assert(0 <= (9 - j) * 9 + f < 9 * (10 - j));
    }
    lemma_rank_back(s, sp.0, sp.1, 9 - j, st);
    let h = scan_chars(s, sp.0, sp.1, 9 - j, st)->Ok_0.4;
    assert(h == scan_ranks(s, ranks, j + 1)->Ok_0.2);
    lemma_rank_same(scan_ranks(s, ranks, 10)->Ok_0.2, h, 9 - j, 0, 0);
}

/// The `/`-separated pieces of `s[lo..n]` follow one another: the first
/// starts at `lo`, the last ends at `n`, and each but the last ends on a
/// `/` just before the next one starts.
proof fn lemma_pieces_shape(s: Seq<char>, lo: int, n: int)
    requires
        0 <= lo <= n <= s.len(),
    ensures
        ({
            let p = pieces(s, lo, n);
            &&& p.len() >= 1
            &&& p[0].0 == lo
            &&& p.last().1 == n
            &&& forall|j: int| 0 <= j < p.len() ==> lo <= #[trigger] p[j].0 <= p[j].1 <= n
            &&& forall|j: int| 0 <= j < p.len() - 1 ==> s[#[trigger] p[j].1] == '/' && p[j + 1].0 == p[j].1 + 1
        }),
    decreases n - lo,
{
    if n > lo {
        lemma_pieces_shape(s, lo, n - 1);
    }
}

/// The first `k` ranks of a board read without fault are written back as
/// the characters up to the end of their spans (and the `/` after each but
/// the last rank).
proof fn lemma_board_back(s: Seq<char>, l: int, g: Seq<u8>, k: nat)
    requires
        k <= 10,
        0 <= l <= s.len(),
        pieces(s, 0, l).len() == 10,
        forall|j: int| 0 <= j < 10 ==> #[trigger] rank_text(g, 9 - j, 0, 0) == s.subrange(
            pieces(s, 0, l)[j].0,
            pieces(s, 0, l)[j].1,
        ),
    ensures
        ranks_text(g, k) == s.subrange(
            0,
            if k == 0 {
                0
            } else if k < 10 {
                pieces(s, 0, l)[k - 1].1 + 1
            } else {
                pieces(s, 0, l)[9].1
            },
        ),
    decreases k,
{
    let p = pieces(s, 0, l);
    lemma_pieces_shape(s, 0, l);
    if k == 0 {
        assert(s.subrange(0, 0) =~= Seq::<char>::empty());
    } else {
        lemma_board_back(s, l, g, (k - 1) as nat);
        let j = k - 1;
        let a = p[j].0;
        let e = p[j].1;
        assert(rank_text(g, 9 - j, 0, 0) == s.subrange(a, e));
        if k == 1 {
            assert(a == 0);
        } else {
            assert(a == p[j - 1].1 + 1);
        }
        if k < 10 {
            assert(s[e] == '/');
            assert(s.subrange(0, e + 1) =~= s.subrange(0, a) + s.subrange(a, e) + seq!['/']);
        } else {
            assert(s.subrange(0, e) =~= s.subrange(0, a) + s.subrange(a, e) + Seq::<char>::empty());
        }
    }
}

/// The canonical form of a record: a board field without spaces, a single
/// space, `w` or `b`, ` - - `, the half-move clock and the ply in decimal
/// without leading zeros separated by a space.
pub open spec fn canonical(t: Seq<char>, b: Seq<char>, c: char, n1: u16, n2: u16) -> bool {
    &&& t == b + seq![' ', c] + seq![' ', '-', ' ', '-', ' '] + decimal(n1 as nat) + seq![' '] + decimal(n2 as nat)
    &&& b.len() > 0
    &&& forall|i: int| 0 <= i < b.len() ==> !is_space(#[trigger] b[i])
    &&& (c == 'w' || c == 'b')
}

/// The fields of a canonical record.
proof fn lemma_canonical_words(t: Seq<char>, b: Seq<char>, c: char, n1: u16, n2: u16)
    requires
        canonical(t, b, c, n1, n2),
    ensures
        ({
            let l = b.len() as int;
            let n1l = decimal(n1 as nat).len() as int;
            let n2l = decimal(n2 as nat).len() as int;
            &&& t.len() == l + 8 + n1l + n2l
            &&& words(t, t.len()) == seq![
                (0, l),
                (l + 1, l + 2),
                (l + 3, l + 4),
                (l + 5, l + 6),
                (l + 7, l + 7 + n1l),
                (l + 8 + n1l, l + 8 + n1l + n2l),
            ]
        }),
{
    let l = b.len() as int;
    let d1 = decimal(n1 as nat);
    let d2 = decimal(n2 as nat);
    let n1l = d1.len() as int;
    let n2l = d2.len() as int;
    lemma_decimal_solid(n1 as nat);
    lemma_decimal_solid(n2 as nat);
    lemma_decimal_digits(n1 as nat);
    lemma_decimal_digits(n2 as nat);
    assert(t.len() == l + 8 + n1l + n2l);
    assert forall|i: int| 0 <= i < l implies !is_space(#[trigger] t[i]) by {
        assert(t[i] == b[i]);
    }
    lemma_words_solid(t, 0, l as nat);
    assert(words(t, 0) =~= Seq::<(int, int)>::empty());
    assert(is_space(t[l]));
    assert(words(t, (l + 1) as nat) == words(t, l as nat));
    assert(!is_space(t[l + 1]));
    lemma_words_solid(t, (l + 1) as nat, (l + 2) as nat);
    assert(is_space(t[l + 2]));
    assert(words(t, (l + 3) as nat) == words(t, (l + 2) as nat));
    assert(!is_space(t[l + 3]));
    lemma_words_solid(t, (l + 3) as nat, (l + 4) as nat);
    assert(is_space(t[l + 4]));
    assert(words(t, (l + 5) as nat) == words(t, (l + 4) as nat));
    assert(!is_space(t[l + 5]));
    lemma_words_solid(t, (l + 5) as nat, (l + 6) as nat);
    assert(is_space(t[l + 6]));
    assert(words(t, (l + 7) as nat) == words(t, (l + 6) as nat));
    assert forall|i: int| l + 7 <= i < l + 7 + n1l implies !is_space(#[trigger] t[i]) by {
        assert(t[i] == d1[i - l - 7]);
    }
    lemma_words_solid(t, (l + 7) as nat, (l + 7 + n1l) as nat);
    assert(is_space(t[l + 7 + n1l]));
    assert(words(t, (l + 8 + n1l) as nat) == words(t, (l + 7 + n1l) as nat));
    assert forall|i: int| l + 8 + n1l <= i < l + 8 + n1l + n2l implies !is_space(#[trigger] t[i]) by {
        assert(t[i] == d2[i - l - 8 - n1l]);
    }
    lemma_words_solid(t, (l + 8 + n1l) as nat, t.len());
    assert(words(t, t.len()) =~= seq![
        (0, l),
        (l + 1, l + 2),
        (l + 3, l + 4),
        (l + 5, l + 6),
        (l + 7, l + 7 + n1l),
        (l + 8 + n1l, l + 8 + n1l + n2l),
    ]);
}

/// The board of a checked canonical record is written back as its board
/// field.
proof fn lemma_canonical_board(t: Seq<char>, b: Seq<char>, c: char, n1: u16, n2: u16)
    requires
        canonical(t, b, c, n1, n2),
        audit_spec(t) is Ok,
    ensures
        board_result(t) is Ok,
        ranks_text(board_result(t)->Ok_0.2, 10) == b,
{
    lemma_canonical_words(t, b, c, n1, n2);
    let l = b.len() as int;
    assert(words(t, t.len())[0] == (0int, l));
    let ranks = pieces(t, 0, l);
    assert(board_result(t) is Ok);
    assert(ranks.len() == 10);
    let g = scan_ranks(t, ranks, 10)->Ok_0.2;
    lemma_pieces_shape(t, 0, l);
    assert forall|j: int| 0 <= j < 10 implies #[trigger] rank_text(g, 9 - j, 0, 0) == t.subrange(
        ranks[j].0,
        ranks[j].1,
    ) by {
        lemma_rank_of_board(t, ranks, j as nat);
    }
    lemma_board_back(t, l, g, 10);
    assert(t.subrange(0, l) =~= b);
}

/// A checked record in canonical form writes back to itself: a record in
/// `canonical` form that `Validator::check` accepts is read by
/// `Parser::parse` into a position `q` whose record, as
/// `Serializer::export` writes it, is the record itself.
pub proof fn lemma_canonical_roundtrip(t: Seq<char>, b: Seq<char>, c: char, n1: u16, n2: u16, q: Position)
    requires
        canonical(t, b, c, n1, n2),
        audit_spec(t) is Ok,
        parsed(t) == Some((q.grid@, q.side, q.rule, q.ply)),
    ensures
        fen_text(q) == t,
{
    lemma_canonical_words(t, b, c, n1, n2);
    lemma_canonical_board(t, b, c, n1, n2);
    let l = b.len() as int;
    let d1 = decimal(n1 as nat);
    let d2 = decimal(n2 as nat);
    let n1l = d1.len() as int;
    let w = words(t, t.len());
    assert(token(t, w[1]) =~= seq![c]);
    assert(token(t, w[4]) =~= d1);
    assert(token(t, w[5]) =~= d2);
    lemma_counter_roundtrip(n1);
    lemma_counter_roundtrip(n2);
    assert(q.grid@ == board_result(t)->Ok_0.2);
    assert(q.rule == n1 && q.ply == n2);
    assert(fen_text(q) =~= t);
}

/// Reading a rank places only pieces where they may stand.
proof fn lemma_scan_placed(s: Seq<char>, lo: int, hi: int, rank: int, st: (int, bool, int, int, Seq<u8>))
    requires
        0 <= rank < 10,
        0 <= st.0,
        st.4.len() == 90,
        placed(st.4),
        scan_chars(s, lo, hi, rank, st) is Ok,
    ensures
        placed(scan_chars(s, lo, hi, rank, st)->Ok_0.4),
    decreases hi - lo,
{
    if hi > lo {
        lemma_scan_placed(s, lo, hi - 1, rank, st);
        lemma_scan_frame(s, lo, hi - 1, rank, st);
        let m = scan_chars(s, lo, hi - 1, rank, st)->Ok_0;
        let c = s[hi - 1];
        if !is_digit(c) {
            let p = code_of_letter(c);
            let g2 = m.4.update(rank * 9 + m.0, p);
            assert(placement_fault(p, rank, m.0) is None);
            assert forall|r: int, f: int|
                0 <= r < 10 && 0 <= f < 9 && #[trigger] g2[r * 9 + f] < 14 implies placement_fault(
                g2[r * 9 + f],
                r,
                f,
            ) is None by {
                if r * 9 + f == rank * 9 + m.0 {
                    assert(r == rank && f == m.0);
                }
            }
            assert forall|x: int| 0 <= x < 90 implies #[trigger] g2[x] <= 14 by {}
        }
    }
}

/// Reading the ranks of a board places only pieces where they may stand.
proof fn lemma_ranks_placed(s: Seq<char>, ranks: Seq<(int, int)>, k: nat)
    requires
        k <= 10,
        scan_ranks(s, ranks, k) is Ok,
    ensures
        placed(scan_ranks(s, ranks, k)->Ok_0.2),
    decreases k,
{
    if k == 0 {
        assert forall|r: int, f: int|
            0 <= r < 10 && 0 <= f < 9 && #[trigger] blank()[r * 9 + f] < 14 implies placement_fault(
            blank()[r * 9 + f],
            r,
            f,
        ) is None by {}
    } else {
        lemma_ranks_read(s, ranks, k);
        lemma_ranks_read(s, ranks, (k - 1) as nat);
        lemma_ranks_placed(s, ranks, (k - 1) as nat);
        let (k0, k1, g) = scan_ranks(s, ranks, (k - 1) as nat)->Ok_0;
        let sp = ranks[k - 1];
        lemma_scan_placed(s, sp.0, sp.1, 9 - (k - 1), (0, false, k0, k1, g));
    }
}

/// Piece code `p` may stand on square `sq`: kings and advisors inside
/// their palace, elephants on their own side of the river, pawns on or
/// beyond their starting rank; other codes anywhere.
pub open spec fn stands_well(p: u8, sq: int) -> bool {
    &&& (p == 2 ==> sq < 45)
    &&& (p == 9 ==> sq >= 45)
    &&& (p == 0 || p == 1 ==> sq / 9 <= 2 && 3 <= sq % 9 <= 5)
    &&& (p == 7 || p == 8 ==> sq / 9 >= 7 && 3 <= sq % 9 <= 5)
    &&& (p == 6 ==> sq >= 27)
    &&& (p == 13 ==> sq < 63)
}

/// A checked record places every piece where it may stand: kings and
/// advisors inside their palace (files 3 to 5, ranks 0 to 2 for Red, 7 to 9
/// for Black), elephants on their own side of the river (Red on squares 0
/// to 44, Black on 45 to 89), and pawns on or beyond their starting rank
/// (Red on rank 3 or above, Black on rank 6 or below). Equivalently, a
/// record with a piece out of place is refused.
pub proof fn lemma_checked_placement(s: Seq<char>)
    requires
        audit_spec(s) is Ok,
    ensures
        parsed(s) is Some,
        forall|sq: int| 0 <= sq < 90 ==> stands_well(#[trigger] parsed(s)->Some_0.0[sq], sq),
{
    let sp = words(s, s.len())[0];
    let ranks = pieces(s, sp.0, sp.1);
    lemma_ranks_placed(s, ranks, 10);
    let g = board_result(s)->Ok_0.2;
    assert(parsed(s)->Some_0.0 == g);
    assert forall|sq: int| 0 <= sq < 90 implies stands_well(#[trigger] g[sq], sq) by {
        let r = sq / 9;
        let f = sq % 9;
        assert(sq == r * 9 + f);
        if g[r * 9 + f] < 14 {
            assert(placement_fault(g[r * 9 + f], r, f) is None);
        }
    }
}

} // verus!
