//! FEN reading, checking and writing for the 10x9 board.
//!
//! A FEN record has up to six whitespace-separated fields: the board (ten
//! ranks from rank 9 down to rank 0, separated by `/`), the side to move, two
//! fields that are always `-`, the half-move clock and the ply counter.
use vstd::prelude::*;
use super::piece::{Piece, code_of_letter, piece_letter};
use super::position::{Position, side_of};

verus! {

/// Why a FEN record was refused.
#[derive(Clone, Copy, Debug, PartialEq, Eq, Hash, Structural)]
pub enum Fault {
    /// No field at all.
    Format,
    /// The board field does not have ten ranks.
    Ranks,
    /// A rank does not cover nine files.
    Files,
    /// A zero, or two digits in a row.
    Digits,
    /// A character that is neither a digit nor a piece letter.
    Syntax,
    /// A king or advisor outside its palace.
    Palace,
    /// A side without exactly one king.
    Kings,
    /// An elephant across the river or a pawn behind its starting rank.
    River,
    /// The two kings face each other on an open file.
    Fly,
    /// The side-to-move field is not one of `w`, `r`, `b` in either case.
    Turn,
}

/// Characters with the Unicode `White_Space` property.
pub open spec fn is_space(c: char) -> bool {
    let u = c as u32;
    (0x09 <= u <= 0x0d) || u == 0x20 || u == 0x85 || u == 0xa0 || u == 0x1680 || (0x2000 <= u
        <= 0x200a) || u == 0x2028 || u == 0x2029 || u == 0x202f || u == 0x205f || u == 0x3000
}

/// The spans `(start, end)` of the maximal runs of non-space characters
/// among the first `n` characters of `s`, in order.
pub open spec fn words(s: Seq<char>, n: nat) -> Seq<(int, int)>
    decreases n,
{
    if n == 0 {
        seq![]
    } else {
        let w = words(s, (n - 1) as nat);
        let i = n - 1;
        if is_space(s[i]) {
            w
        } else if i > 0 && !is_space(s[i - 1]) {
            w.update(w.len() - 1, (w.last().0, n as int))
        } else {
            w.push((i, n as int))
        }
    }
}

/// The spans of the `/`-separated pieces of `s[lo..n]`, empty pieces included.
pub open spec fn pieces(s: Seq<char>, lo: int, n: int) -> Seq<(int, int)>
    decreases n - lo,
{
    if n <= lo {
        seq![(lo, lo)]
    } else {
        let p = pieces(s, lo, n - 1);
        if s[n - 1] == '/' {
            p.push((n, n))
        } else {
            p.update(p.len() - 1, (p.last().0, n))
        }
    }
}

/// Whether `c` is an ASCII decimal digit.
pub open spec fn is_digit(c: char) -> bool {
    '0' <= c <= '9'
}

/// Value of the ASCII digit `c`.
pub open spec fn digit_value(c: char) -> int {
    c as int - '0' as int
}

/// The fault of placing piece code `p` on `rank`, `file`: kings and advisors
/// stay in their palace, elephants on their side of the river, pawns on or
/// beyond their starting rank.
pub open spec fn placement_fault(p: u8, rank: int, file: int) -> Option<Fault> {
    let role = p % 7;
    let red = p < 7;
    if role == 0 || role == 1 {
        if (red && (rank > 2 || file < 3 || file > 5)) || (!red && (rank < 7 || file < 3 || file
            > 5)) {
            Some(Fault::Palace)
        } else {
            None
        }
    } else if role == 2 {
        if (red && rank > 4) || (!red && rank < 5) {
            Some(Fault::River)
        } else {
            None
        }
    } else if role == 6 {
        if (red && rank < 3) || (!red && rank > 6) {
            Some(Fault::River)
        } else {
            None
        }
    } else {
        None
    }
}

/// Reading one character of a rank: the state is the file reached, whether
/// the last character was a digit, the kings seen per side, and the grid.
pub open spec fn step(st: (int, bool, int, int, Seq<u8>), c: char, rank: int) -> Result<
    (int, bool, int, int, Seq<u8>),
    Fault,
> {
    let (file, digit, k0, k1, g) = st;
    if is_digit(c) {
        if digit_value(c) == 0 || digit {
            Err(Fault::Digits)
        } else {
            Ok((file + digit_value(c), true, k0, k1, g))
        }
    } else {
        let p = code_of_letter(c);
        if p >= 14 {
            Err(Fault::Syntax)
        } else if file >= 9 {
            Err(Fault::Files)
        } else {
            match placement_fault(p, rank, file) {
                Some(f) => Err(f),
                None => Ok(
                    (
                        file + 1,
                        false,
                        if p == 0 {
                            k0 + 1
                        } else {
                            k0
                        },
                        if p == 7 {
                            k1 + 1
                        } else {
                            k1
                        },
                        g.update(rank * 9 + file, p),
                    ),
                ),
            }
        }
    }
}

/// Reading the characters `s[lo..hi]` of a rank from state `st`.
pub open spec fn scan_chars(
    s: Seq<char>,
    lo: int,
    hi: int,
    rank: int,
    st: (int, bool, int, int, Seq<u8>),
) -> Result<(int, bool, int, int, Seq<u8>), Fault>
    decreases hi - lo,
{
    if hi <= lo {
        Ok(st)
    } else {
        match scan_chars(s, lo, hi - 1, rank, st) {
            Err(f) => Err(f),
            Ok(t) => step(t, s[hi - 1], rank),
        }
    }
}

/// The empty grid.
pub open spec fn blank() -> Seq<u8> {
    Seq::new(90, |i: int| 14u8)
}

/// Reading the first `k` ranks (spans in `ranks`, rank 9 first): the kings
/// seen per side and the grid, or the first fault met.
pub open spec fn scan_ranks(s: Seq<char>, ranks: Seq<(int, int)>, k: nat) -> Result<
    (int, int, Seq<u8>),
    Fault,
>
    decreases k,
{
    if k == 0 {
        Ok((0, 0, blank()))
    } else {
        match scan_ranks(s, ranks, (k - 1) as nat) {
            Err(f) => Err(f),
            Ok((k0, k1, g)) => {
                let sp = ranks[k - 1];
                match scan_chars(s, sp.0, sp.1, 9 - (k - 1), (0, false, k0, k1, g)) {
                    Err(f) => Err(f),
                    Ok((file, d, a, b, g2)) => if file != 9 {
                        Err(Fault::Files)
                    } else {
                        Ok((a, b, g2))
                    },
                }
            },
        }
    }
}

/// Spans held as machine integers agree with spans of the model.
pub open spec fn same_spans(v: Seq<(usize, usize)>, w: Seq<(int, int)>) -> bool {
    &&& v.len() == w.len()
    &&& forall|k: int| 0 <= k < v.len() ==> #[trigger] v[k].0 == w[k].0 && v[k].1 == w[k].1
}

/// The characters of `text`.
fn chars_of(text: &str) -> (v: Vec<char>)
    ensures
        v@ == text@,
{
    let n = text.unicode_len();
    let mut v: Vec<char> = Vec::new();
    let mut i: usize = 0;
    while i < n
        invariant
            n == text@.len(),
            i <= n,
            v@ == text@.subrange(0, i as int),
        decreases n - i,
    {
        v.push(text.get_char(i));
        i += 1;
    }
    assert(v@ =~= text@);
    v
}

/// Whether `c` has the Unicode `White_Space` property.
pub fn space(c: char) -> (r: bool)
    ensures
        r == is_space(c),
{
    let u = c as u32;
    (0x09 <= u && u <= 0x0d) || u == 0x20 || u == 0x85 || u == 0xa0 || u == 0x1680 || (0x2000 <= u
        && u <= 0x200a) || u == 0x2028 || u == 0x2029 || u == 0x202f || u == 0x205f || u == 0x3000
}

proof fn lemma_words_last(s: Seq<char>, n: nat)
    requires
        n > 0,
        n <= s.len(),
        !is_space(s[n - 1]),
    ensures
        words(s, n).len() > 0,
        words(s, n).last().1 == n,
    decreases n,
{
    if n - 1 > 0 && !is_space(s[n - 2]) {
        lemma_words_last(s, (n - 1) as nat);
    }
}

/// The spans of the whitespace-separated fields of `s`.
fn split_words(s: &Vec<char>) -> (w: Vec<(usize, usize)>)
    ensures
        same_spans(w@, words(s@, s@.len())),
        forall|k: int| 0 <= k < w@.len() ==> #[trigger] w@[k].0 <= w@[k].1 <= s@.len(),
{
    let mut w: Vec<(usize, usize)> = Vec::new();
    let mut i: usize = 0;
    while i < s.len()
        invariant
            i <= s@.len(),
            same_spans(w@, words(s@, i as nat)),
            forall|k: int| 0 <= k < w@.len() ==> #[trigger] w@[k].0 <= w@[k].1 <= i,
        decreases s@.len() - i,
    {
        let c = s[i];
        let ghost ws = words(s@, i as nat);
        let ghost w0 = w@;
        if space(c) {
        } else if i > 0 && !space(s[i - 1]) {
            proof {
                lemma_words_last(s@, i as nat);
            }
            let last = w.len() - 1;
            let start = w[last].0;
            assert(w0[last as int].0 <= w0[last as int].1 <= i);
            w.set(last, (start, i + 1));
            assert forall|k: int| 0 <= k < w@.len() implies #[trigger] w@[k].0 <= w@[k].1 <= i + 1 by {
                if k != last {
                    assert(w@[k] == w0[k]);
                }
            }
            let ghost wn = ws.update(ws.len() - 1, (ws.last().0, (i + 1) as int));
            assert(words(s@, (i + 1) as nat) == wn);
            assert forall|k: int| 0 <= k < w@.len() implies #[trigger] w@[k].0 == wn[k].0 && w@[k].1 == wn[k].1 by {
                if k != last {
                    assert(w@[k] == w0[k]);
                }
            }
        } else {
            w.push((i, i + 1));
            assert forall|k: int| 0 <= k < w@.len() implies #[trigger] w@[k].0 <= w@[k].1 <= i + 1 by {
                if k < w0.len() {
                    assert(w@[k] == w0[k]);
                }
            }
            let ghost wn = ws.push((i as int, (i + 1) as int));
            assert(words(s@, (i + 1) as nat) == wn);
            assert forall|k: int| 0 <= k < w@.len() implies #[trigger] w@[k].0 == wn[k].0 && w@[k].1 == wn[k].1 by {
                if k < w0.len() {
                    assert(w@[k] == w0[k]);
                }
            }
        }
        i += 1;
    }
    w
}

proof fn lemma_pieces_shape(s: Seq<char>, lo: int, n: int)
    requires
        lo <= n,
    ensures
        pieces(s, lo, n).len() >= 1,
        pieces(s, lo, n).last().1 == n,
        forall|k: int|
            0 <= k < pieces(s, lo, n).len() ==> lo <= #[trigger] pieces(s, lo, n)[k].0 <= pieces(
                s,
                lo,
                n,
            )[k].1 <= n,
        forall|k: int|
            0 <= k < pieces(s, lo, n).len() - 1 ==> #[trigger] pieces(s, lo, n)[k].1 < pieces(
                s,
                lo,
                n,
            )[k + 1].0,
    decreases n - lo,
{
    if n > lo {
        lemma_pieces_shape(s, lo, n - 1);
    }
}

/// The spans of the `/`-separated pieces of `s[lo..hi]`.
fn split_ranks(s: &Vec<char>, lo: usize, hi: usize) -> (p: Vec<(usize, usize)>)
    requires
        lo <= hi <= s@.len(),
    ensures
        same_spans(p@, pieces(s@, lo as int, hi as int)),
{
    let mut p: Vec<(usize, usize)> = Vec::new();
    p.push((lo, lo));
    let mut i: usize = lo;
    while i < hi
        invariant
            lo <= i <= hi <= s@.len(),
            same_spans(p@, pieces(s@, lo as int, i as int)),
        decreases hi - i,
    {
        proof {
            lemma_pieces_shape(s@, lo as int, i as int);
        }
        let ghost ps = pieces(s@, lo as int, i as int);
        let ghost p0 = p@;
        if s[i] == '/' {
            p.push((i + 1, i + 1));
            let ghost pn = ps.push(((i + 1) as int, (i + 1) as int));
            assert(pieces(s@, lo as int, (i + 1) as int) == pn);
            assert forall|k: int| 0 <= k < p@.len() implies #[trigger] p@[k].0 == pn[k].0 && p@[k].1 == pn[k].1 by {
                if k < p0.len() {
                    assert(p@[k] == p0[k]);
                }
            }
        } else {
            let last = p.len() - 1;
            let start = p[last].0;
            p.set(last, (start, i + 1));
            let ghost pn = ps.update(ps.len() - 1, (ps.last().0, (i + 1) as int));
            assert(pieces(s@, lo as int, (i + 1) as int) == pn);
            assert forall|k: int| 0 <= k < p@.len() implies #[trigger] p@[k].0 == pn[k].0 && p@[k].1 == pn[k].1 by {
                if k != last {
                    assert(p@[k] == p0[k]);
                }
            }
        }
        i += 1;
    }
    p
}

proof fn lemma_scan_err(
    s: Seq<char>,
    lo: int,
    j: int,
    hi: int,
    rank: int,
    st: (int, bool, int, int, Seq<u8>),
    f: Fault,
)
    requires
        lo <= j <= hi,
        scan_chars(s, lo, j, rank, st) == Err::<(int, bool, int, int, Seq<u8>), Fault>(f),
    ensures
        scan_chars(s, lo, hi, rank, st) == Err::<(int, bool, int, int, Seq<u8>), Fault>(f),
    decreases hi - j,
{
    if j < hi {
        lemma_scan_err(s, lo, j, hi - 1, rank, st, f);
    }
}

/// The fault of placing piece code `p` on `rank`, `file`, if any.
fn placement(p: u8, rank: u8, file: u8) -> (r: Option<Fault>)
    requires
        p < 14,
    ensures
        r == placement_fault(p, rank as int, file as int),
{
    let role = p % 7;
    let red = p < 7;
    if role == 0 || role == 1 {
        if (red && (rank > 2 || file < 3 || file > 5)) || (!red && (rank < 7 || file < 3 || file
            > 5)) {
            Some(Fault::Palace)
        } else {
            None
        }
    } else if role == 2 {
        if (red && rank > 4) || (!red && rank < 5) {
            Some(Fault::River)
        } else {
            None
        }
    } else if role == 6 {
        if (red && rank < 3) || (!red && rank > 6) {
            Some(Fault::River)
        } else {
            None
        }
    } else {
        None
    }
}

/// A result of `read_rank` agrees with the model's.
pub open spec fn rank_agrees(
    r: Result<(u8, usize, usize, [u8; 90]), Fault>,
    m: Result<(int, bool, int, int, Seq<u8>), Fault>,
) -> bool {
    match r {
        Ok((f, a, b, g)) => m is Ok && m->Ok_0.0 == f && m->Ok_0.2 == a && m->Ok_0.3 == b
            && m->Ok_0.4 == g@,
        Err(e) => m == Err::<(int, bool, int, int, Seq<u8>), Fault>(e),
    }
}

/// Reads the characters `s[lo..hi]` of rank `rank`, placing pieces on
/// `grid` and counting kings; returns the file reached, or the first fault.
fn read_rank(
    s: &Vec<char>,
    lo: usize,
    hi: usize,
    rank: u8,
    k0: usize,
    k1: usize,
    grid: [u8; 90],
) -> (r: Result<(u8, usize, usize, [u8; 90]), Fault>)
    requires
        lo <= hi <= s@.len(),
        rank < 10,
        k0 + k1 <= lo,
        forall|t: int| 0 <= t < 90 ==> #[trigger] grid@[t] <= 14,
    ensures
        r is Ok ==> forall|t: int| 0 <= t < 90 ==> #[trigger] r->Ok_0.3@[t] <= 14,
        rank_agrees(r, scan_chars(s@, lo as int, hi as int, rank as int, (0, false, k0 as int, k1 as int, grid@))),
        r is Ok ==> r->Ok_0.1 + r->Ok_0.2 <= hi,
{
    let ghost st0 = (0int, false, k0 as int, k1 as int, grid@);
    let mut file: u8 = 0;
    let mut digit = false;
    let mut a = k0;
    let mut b = k1;
    let mut g = grid;
    let mut i = lo;
    while i < hi
        invariant
            lo <= i <= hi <= s@.len(),
            st0 == (0int, false, k0 as int, k1 as int, grid@),
            forall|t: int| 0 <= t < 90 ==> #[trigger] g@[t] <= 14,
            rank < 10,
            file <= 18,
            !digit ==> file <= 9,
            a + b <= i,
            scan_chars(s@, lo as int, i as int, rank as int, st0) == Ok::<
                (int, bool, int, int, Seq<u8>),
                Fault,
            >((file as int, digit, a as int, b as int, g@)),
        decreases hi - i,
    {
        let c = s[i];
        if '0' <= c && c <= '9' {
            let v = ((c as u32) - ('0' as u32)) as u8;
            if v == 0 || digit {
                proof {
                    assert(scan_chars(s@, lo as int, i + 1, rank as int, st0) == Err::<(int, bool, int, int, Seq<u8>), Fault>(Fault::Digits));
                    lemma_scan_err(s@, lo as int, i + 1, hi as int, rank as int, st0, Fault::Digits);
                }
                return Err(Fault::Digits);
            }
            file = file + v;
            digit = true;
        } else {
            digit = false;
            let piece = Piece::parse(c);
            if !piece.valid() {
                proof {
                    lemma_scan_err(s@, lo as int, i + 1, hi as int, rank as int, st0, Fault::Syntax);
                }
                return Err(Fault::Syntax);
            }
            if file >= 9 {
                proof {
                    lemma_scan_err(s@, lo as int, i + 1, hi as int, rank as int, st0, Fault::Files);
                }
                return Err(Fault::Files);
            }
            match placement(piece.0, rank, file) {
                Some(f) => {
                    proof {
                        lemma_scan_err(s@, lo as int, i + 1, hi as int, rank as int, st0, f);
                    }
                    return Err(f);
                },
                None => {},
            }
            if piece.0 == 0 {
                a = a + 1;
            }
            if piece.0 == 7 {
                b = b + 1;
            }
            let sq = (rank * 9 + file) as usize;
            g[sq] = piece.0;
            file = file + 1;
        }
        i += 1;
    }
    Ok((file, a, b, g))
}

/// Reads the ten ranks of the board field: the kings seen per side and the
/// grid, or the first fault.
fn read_board(s: &Vec<char>, ranks: &Vec<(usize, usize)>) -> (r: Result<(usize, usize, [u8; 90]), Fault>)
    requires
        ranks@.len() == 10,
        forall|k: int| 0 <= k < 10 ==> #[trigger] ranks@[k].0 <= ranks@[k].1 <= s@.len(),
        forall|k: int| 0 <= k < 9 ==> #[trigger] ranks@[k].1 <= ranks@[k + 1].0,
    ensures
        r is Ok ==> forall|t: int| 0 <= t < 90 ==> #[trigger] r->Ok_0.2@[t] <= 14,
        match r {
            Ok((a, b, g)) => scan_ranks(s@, ranks@.map_values(|p: (usize, usize)| (p.0 as int, p.1 as int)), 10)
                == Ok::<(int, int, Seq<u8>), Fault>((a as int, b as int, g@)),
            Err(f) => scan_ranks(s@, ranks@.map_values(|p: (usize, usize)| (p.0 as int, p.1 as int)), 10)
                == Err::<(int, int, Seq<u8>), Fault>(f),
        },
{
    let ghost sp = ranks@.map_values(|p: (usize, usize)| (p.0 as int, p.1 as int));
    let mut a: usize = 0;
    let mut b: usize = 0;
    let mut g: [u8; 90] = [14; 90];
    assert(g@ =~= blank());
    let mut k: usize = 0;
    while k < 10
        invariant
            k <= 10,
            ranks@.len() == 10,
            sp == ranks@.map_values(|p: (usize, usize)| (p.0 as int, p.1 as int)),
            forall|j: int| 0 <= j < 10 ==> #[trigger] ranks@[j].0 <= ranks@[j].1 <= s@.len(),
            forall|j: int| 0 <= j < 9 ==> #[trigger] ranks@[j].1 <= ranks@[j + 1].0,
            k < 10 ==> a + b <= ranks@[k as int].0,
            forall|t: int| 0 <= t < 90 ==> #[trigger] g@[t] <= 14,
            scan_ranks(s@, sp, k as nat) == Ok::<(int, int, Seq<u8>), Fault>((a as int, b as int, g@)),
        decreases 10 - k,
    {
        let (lo, hi) = ranks[k];
        let rank = (9 - k) as u8;
        let res = read_rank(s, lo, hi, rank, a, b, g);
        assert(sp[k as int] == (lo as int, hi as int));
        match res {
            Err(f) => {
                proof {
                    lemma_ranks_err(s@, sp, (k + 1) as nat, 10, f);
                }
                return Err(f);
            },
            Ok((file, a2, b2, g2)) => {
                if file != 9 {
                    proof {
                        lemma_ranks_err(s@, sp, (k + 1) as nat, 10, Fault::Files);
                    }
                    return Err(Fault::Files);
                }
                a = a2;
                b = b2;
                g = g2;
            },
        }
        k += 1;
    }
    Ok((a, b, g))
}

proof fn lemma_ranks_err(s: Seq<char>, ranks: Seq<(int, int)>, j: nat, n: nat, f: Fault)
    requires
        j <= n,
        scan_ranks(s, ranks, j) == Err::<(int, int, Seq<u8>), Fault>(f),
    ensures
        scan_ranks(s, ranks, n) == Err::<(int, int, Seq<u8>), Fault>(f),
    decreases n - j,
{
    if j < n {
        lemma_ranks_err(s, ranks, j, (n - 1) as nat, f);
    }
}

/// The text of the field spanning `sp`.
pub open spec fn token(s: Seq<char>, sp: (int, int)) -> Seq<char> {
    s.subrange(sp.0, sp.1)
}

/// Whether `t` is an accepted side-to-move field.
pub open spec fn turn_ok(t: Seq<char>) -> bool {
    t.len() == 1 && (t[0] == 'w' || t[0] == 'W' || t[0] == 'r' || t[0] == 'R' || t[0] == 'b'
        || t[0] == 'B')
}

/// The first occupied square above `s` on its file, or -1.
pub open spec fn next_up(g: Seq<u8>, s: int) -> int
    decreases 90 - s,
{
    if s < 0 || s + 9 >= 90 {
        -1
    } else if g[s + 9] < 14 {
        s + 9
    } else {
        next_up(g, s + 9)
    }
}

/// The first occupied square below `s` on its file, or -1.
pub open spec fn next_down(g: Seq<u8>, s: int) -> int
    decreases s,
{
    if s >= 90 || s - 9 < 0 {
        -1
    } else if g[s - 9] < 14 {
        s - 9
    } else {
        next_down(g, s - 9)
    }
}

/// The Red king on `a` sees the Black king along its file.
pub open spec fn faces(g: Seq<u8>, a: int) -> bool {
    &&& g[a] == 0
    &&& {
        ||| next_up(g, a) >= 0 && g[next_up(g, a)] == 7
        ||| next_down(g, a) >= 0 && g[next_down(g, a)] == 7
    }
}

/// The flying-general position: a Red king and a Black king on one file
/// with nothing between them.
pub open spec fn fly_spec(g: Seq<u8>) -> bool {
    exists|a: int| 0 <= a < 90 && #[trigger] faces(g, a)
}

/// The board field read as kings seen per side and grid, or its fault.
pub open spec fn board_result(s: Seq<char>) -> Result<(int, int, Seq<u8>), Fault> {
    let sp = words(s, s.len())[0];
    let ranks = pieces(s, sp.0, sp.1);
    if ranks.len() != 10 {
        Err(Fault::Ranks)
    } else {
        scan_ranks(s, ranks, 10)
    }
}

/// What checking a FEN record gives: its first fault, in the order the
/// fields are read, or success.
pub open spec fn audit_spec(s: Seq<char>) -> Result<(), Fault> {
    let w = words(s, s.len());
    if w.len() == 0 {
        Err(Fault::Format)
    } else {
        match board_result(s) {
            Err(f) => Err(f),
            Ok((k0, k1, g)) => if k0 != 1 || k1 != 1 {
                Err(Fault::Kings)
            } else if fly_spec(g) {
                Err(Fault::Fly)
            } else if w.len() > 1 && !turn_ok(token(s, w[1])) {
                Err(Fault::Turn)
            } else {
                Ok(())
            },
        }
    }
}

/// Value of the decimal digits `t[0..n]`.
pub open spec fn digits_value(t: Seq<char>, n: nat) -> int
    decreases n,
{
    if n == 0 {
        0
    } else {
        digits_value(t, (n - 1) as nat) * 10 + digit_value(t[n - 1])
    }
}

/// Whether `t` consists of decimal digits only.
pub open spec fn all_digits(t: Seq<char>) -> bool {
    forall|i: int| 0 <= i < t.len() ==> #[trigger] is_digit(t[i])
}

/// `t` read as a `u16` the way Rust's `str::parse::<u16>` reads it: an
/// optional `+`, then one or more decimal digits, at most 65535.
pub open spec fn parse_u16(t: Seq<char>) -> Option<u16> {
    let d = if t.len() > 0 && t[0] == '+' {
        t.drop_first()
    } else {
        t
    };
    if d.len() == 0 || !all_digits(d) || digits_value(d, d.len()) > 65535 {
        None
    } else {
        Some(digits_value(d, d.len()) as u16)
    }
}

/// The grid, side to move, half-move clock and ply of a valid FEN record,
/// or `None` when the record is refused.
pub open spec fn parsed(s: Seq<char>) -> Option<(Seq<u8>, u8, u16, u16)> {
    let w = words(s, s.len());
    if audit_spec(s) is Err {
        None
    } else {
        let side: u8 = if w.len() > 1 && (token(s, w[1]) == seq!['b'] || token(s, w[1]) == seq![
            'B',
        ]) {
            1
        } else {
            0
        };
        let rule: u16 = if w.len() > 4 && parse_u16(token(s, w[4])) is Some {
            parse_u16(token(s, w[4]))->Some_0
        } else {
            0
        };
        let ply: u16 = if w.len() > 5 && parse_u16(token(s, w[5])) is Some {
            parse_u16(token(s, w[5]))->Some_0
        } else {
            1
        };
        Some((board_result(s)->Ok_0.2, side, rule, ply))
    }
}

/// The last square below `n` that holds code `p`, or 255.
pub open spec fn last_on(g: Seq<u8>, p: u8, n: nat) -> u8
    decreases n,
{
    if n == 0 {
        255
    } else if g[n - 1] == p {
        (n - 1) as u8
    } else {
        last_on(g, p, (n - 1) as nat)
    }
}

fn look_up(g: &[u8; 90], s: usize) -> (r: Option<usize>)
    requires
        s < 90,
    ensures
        r is None <==> next_up(g@, s as int) == -1,
        r is Some ==> r->Some_0 == next_up(g@, s as int) && r->Some_0 < 90,
{
    let mut t = s;
    while t + 9 < 90
        invariant
            t < 90,
            next_up(g@, s as int) == next_up(g@, t as int),
        decreases 90 - t,
    {
        if g[t + 9] < 14 {
            return Some(t + 9);
        }
        t = t + 9;
    }
    None
}

fn look_down(g: &[u8; 90], s: usize) -> (r: Option<usize>)
    requires
        s < 90,
    ensures
        r is None <==> next_down(g@, s as int) == -1,
        r is Some ==> r->Some_0 == next_down(g@, s as int) && r->Some_0 < 90,
{
    let mut t = s;
    while t >= 9
        invariant
            t < 90,
            next_down(g@, s as int) == next_down(g@, t as int),
        decreases t,
    {
        if g[t - 9] < 14 {
            return Some(t - 9);
        }
        t = t - 9;
    }
    None
}

/// Whether the two kings face each other on an open file (the
/// flying-general rule).
pub fn fly(pos: &Position) -> (r: bool)
    ensures
        r == fly_spec(pos.grid@),
{
    let g = &pos.grid;
    let mut a: usize = 0;
    while a < 90
        invariant
            a <= 90,
            g@ == pos.grid@,
            forall|b: int| 0 <= b < a ==> !#[trigger] faces(g@, b),
        decreases 90 - a,
    {
        if g[a] == 0 {
            match look_up(g, a) {
                Some(t) => {
                    if g[t] == 7 {
                        assert(faces(g@, a as int));
                        return true;
                    }
                },
                None => {},
            }
            match look_down(g, a) {
                Some(t) => {
                    if g[t] == 7 {
                        assert(faces(g@, a as int));
                        return true;
                    }
                },
                None => {},
            }
        }
        a += 1;
    }
    false
}

/// The position holding the pieces of `grid`, Red to move, ply 1.
fn place(grid: &[u8; 90]) -> (p: Position)
    requires
        forall|s: int| 0 <= s < 90 ==> #[trigger] grid@[s] <= 14,
    ensures
        p.wf(),
        p.grid@ == grid@,
        p.king[0] == last_on(grid@, 0, 90),
        p.king[1] == last_on(grid@, 7, 90),
        p.hash == 0 && p.rule == 0 && p.ply == 1 && p.side == 0 && p.check == 0 && p.captured
            == 14,
        forall|i: int| 0 <= i < 55 ==> #[trigger] p.pad[i] == 0,
{
    let mut p = Position::empty();
    let mut s: usize = 0;
    while s < 90
        invariant
            s <= 90,
            p.wf(),
            forall|t: int| 0 <= t < 90 ==> #[trigger] grid@[t] <= 14,
            forall|t: int| 0 <= t < s ==> #[trigger] p.grid@[t] == grid@[t],
            forall|t: int| s <= t < 90 ==> #[trigger] p.grid@[t] == 14,
            p.king[0] == last_on(grid@, 0, s as nat),
            p.king[1] == last_on(grid@, 7, s as nat),
            p.hash == 0 && p.rule == 0 && p.ply == 1 && p.side == 0 && p.check == 0 && p.captured
                == 14,
            forall|i: int| 0 <= i < 55 ==> #[trigger] p.pad[i] == 0,
        decreases 90 - s,
    {
        let code = grid[s];
        if code < 14 {
            p.put(code, s as u8);
        }
        s += 1;
    }
    assert(p.grid@ =~= grid@);
    p
}

/// Whether `s[lo..hi]` is the one-character field `c`.
fn field_is(s: &Vec<char>, lo: usize, hi: usize, c: char) -> (r: bool)
    requires
        lo <= hi <= s@.len(),
    ensures
        r == (s@.subrange(lo as int, hi as int) == seq![c]),
{
    if hi - lo == 1 && s[lo] == c {
        assert(s@.subrange(lo as int, hi as int) =~= seq![c]);
        true
    } else {
        if hi - lo == 1 {
            assert(s@.subrange(lo as int, hi as int)[0] == s@[lo as int]);
        } else {
            assert(s@.subrange(lo as int, hi as int).len() != 1);
        }
        false
    }
}

proof fn lemma_digits_mono(d: Seq<char>, k: nat, n: nat)
    requires
        k <= n <= d.len(),
        forall|i: int| 0 <= i < n ==> #[trigger] is_digit(d[i]),
    ensures
        0 <= digits_value(d, k) <= digits_value(d, n),
    decreases n,
{
    if n > 0 {
        assert(is_digit(d[n - 1]));
        if n > k {
            lemma_digits_mono(d, k, (n - 1) as nat);
        } else {
            lemma_digits_mono(d, (n - 1) as nat, (n - 1) as nat);
        }
    }
}

/// Reads `s[lo..hi]` as a `u16` the way `str::parse::<u16>` does.
fn parse_number(s: &Vec<char>, lo: usize, hi: usize) -> (r: Option<u16>)
    requires
        lo <= hi <= s@.len(),
    ensures
        r == parse_u16(s@.subrange(lo as int, hi as int)),
{
    let ghost t = s@.subrange(lo as int, hi as int);
    let mut i = lo;
    if hi > lo && s[lo] == '+' {
        i = lo + 1;
        assert(t.drop_first() =~= s@.subrange(i as int, hi as int));
    } else {
        assert(t =~= s@.subrange(i as int, hi as int));
    }
    let ghost d = s@.subrange(i as int, hi as int);
    assert(d == (if t.len() > 0 && t[0] == '+' {
        t.drop_first()
    } else {
        t
    }));
    if i == hi {
        return None;
    }
    let mut v: u32 = 0;
    let mut j = i;
    while j < hi
        invariant
            lo <= i <= j <= hi <= s@.len(),
            d == s@.subrange(i as int, hi as int),
            t == s@.subrange(lo as int, hi as int),
            d == (if t.len() > 0 && t[0] == '+' {
                t.drop_first()
            } else {
                t
            }),
            forall|k: int| 0 <= k < j - i ==> #[trigger] is_digit(d[k]),
            v == digits_value(d, (j - i) as nat),
            v <= 65535,
        decreases hi - j,
    {
        let c = s[j];
        assert(d[j - i] == c);
        if !('0' <= c && c <= '9') {
            assert(!is_digit(d[(j - i) as int]));
            assert(!all_digits(d));
            return None;
        }
        v = v * 10 + ((c as u32) - ('0' as u32));
        j += 1;
        if v > 65535 {
            proof {
                if all_digits(d) {
                    lemma_digits_mono(d, (j - i) as nat, d.len());
                }
            }
            return None;
        }
    }
    Some(v as u16)
}

/// Checks a FEN record; on success returns the spans of its fields and the
/// grid of its board field.
fn examine(s: &Vec<char>) -> (r: Result<(Vec<(usize, usize)>, [u8; 90]), Fault>)
    ensures
        match r {
            Ok((w, g)) => {
                &&& audit_spec(s@) is Ok
                &&& same_spans(w@, words(s@, s@.len()))
                &&& forall|k: int| 0 <= k < w@.len() ==> #[trigger] w@[k].0 <= w@[k].1 <= s@.len()
                &&& g@ == board_result(s@)->Ok_0.2
                &&& forall|t: int| 0 <= t < 90 ==> #[trigger] g@[t] <= 14
            },
            Err(f) => audit_spec(s@) == Err::<(), Fault>(f),
        },
{
    let w = split_words(s);
    if w.len() == 0 {
        return Err(Fault::Format);
    }
    let (lo, hi) = w[0];
    let ranks = split_ranks(s, lo, hi);
    proof {
        lemma_pieces_shape(s@, lo as int, hi as int);
    }
    if ranks.len() != 10 {
        return Err(Fault::Ranks);
    }
    let ghost sp = pieces(s@, lo as int, hi as int);
    assert(ranks@.map_values(|p: (usize, usize)| (p.0 as int, p.1 as int)) =~= sp);
    assert forall|k: int| 0 <= k < 10 implies #[trigger] ranks@[k].0 <= ranks@[k].1 <= s@.len() by {
        assert(sp[k].0 == ranks@[k].0);
    }
    assert forall|k: int| 0 <= k < 9 implies #[trigger] ranks@[k].1 <= ranks@[k + 1].0 by {
        assert(sp[k].1 == ranks@[k].1);
        assert(sp[k + 1].0 == ranks@[k + 1].0);
    }
    let (k0, k1, g) = match read_board(s, &ranks) {
        Ok(x) => x,
        Err(f) => {
            return Err(f);
        },
    };
    if k0 != 1 || k1 != 1 {
        return Err(Fault::Kings);
    }
    let pos = place(&g);
    if fly(&pos) {
        return Err(Fault::Fly);
    }
    if w.len() > 1 {
        let (a, b) = w[1];
        let ok = field_is(s, a, b, 'w') || field_is(s, a, b, 'W') || field_is(s, a, b, 'r')
            || field_is(s, a, b, 'R') || field_is(s, a, b, 'b') || field_is(s, a, b, 'B');
        proof {
            let t = s@.subrange(a as int, b as int);
            if turn_ok(t) {
                assert(t =~= seq![t[0]]);
            }
        }
        if !ok {
            return Err(Fault::Turn);
        }
    }
    Ok((w, g))
}

/// FEN checking.
pub struct Validator;

impl Validator {
    /// Whether `text` is a valid FEN record.
    pub fn check(text: &str) -> (r: bool)
        ensures
            r == (audit_spec(text@) is Ok),
    {
        Self::audit(text).is_ok()
    }

    /// Checks `text` field by field and returns the first fault found, in
    /// this order: no field, rank count, then per character of the board
    /// (digits, letters, file overflow, palace and river), file count per
    /// rank, king count, facing kings, side to move.
    pub fn audit(text: &str) -> (r: Result<(), Fault>)
        ensures
            r == audit_spec(text@),
    {
        let s = chars_of(text);
        match examine(&s) {
            Ok(_) => Ok(()),
            Err(f) => Err(f),
        }
    }
}

/// FEN reading.
pub struct Parser;

impl Parser {
    /// The starting position.
    pub const DEFAULT: &'static str = "rnbakabnr/9/1c5c1/p1p1p1p1p/9/9/P1P1P1P1P/1C5C1/9/RNBAKABNR w - - 0 1";

    /// Builds the position that `text` describes. A refused record gives
    /// the empty board; a missing or unreadable clock or ply field keeps
    /// its default (0 and 1). The hash is computed from the result.
    pub fn parse(text: &str) -> (r: Position)
        ensures
            r.wf(),
            r.check == 0 && r.captured == 14,
            forall|i: int| 0 <= i < 55 ==> #[trigger] r.pad[i] == 0,
            r.hash == r.spec_hash(),
            match parsed(text@) {
                None => {
                    &&& forall|t: int| 0 <= t < 90 ==> #[trigger] r.grid[t] == 14
                    &&& r.side == 0 && r.rule == 0 && r.ply == 1 && r.hash == 0
                    &&& r.king[0] == 255 && r.king[1] == 255
                },
                Some((g, side, rule, ply)) => {
                    &&& r.grid@ == g
                    &&& r.side == side && r.rule == rule && r.ply == ply
                    &&& r.king[0] == last_on(g, 0, 90) && r.king[1] == last_on(g, 7, 90)
                },
            },
    {
        let s = chars_of(text);
        match examine(&s) {
            Err(_) => Position::empty(),
            Ok((w, g)) => {
                let mut pos = place(&g);
                if w.len() > 1 {
                    let (a, b) = w[1];
                    if field_is(&s, a, b, 'b') || field_is(&s, a, b, 'B') {
                        pos.side = 1;
                    } else {
                        pos.side = 0;
                    }
                }
                if w.len() > 4 {
                    let (a, b) = w[4];
                    match parse_number(&s, a, b) {
                        Some(v) => {
                            pos.rule = v;
                        },
                        None => {},
                    }
                }
                if w.len() > 5 {
                    let (a, b) = w[5];
                    match parse_number(&s, a, b) {
                        Some(v) => {
                            pos.ply = v;
                        },
                        None => {},
                    }
                }
                pos.hash = pos.compute();
                pos
            },
        }
    }
}

/// The decimal digit character of `d` (0..9).
pub open spec fn digit_char(d: int) -> char {
    (48 + d) as char
}

/// Decimal notation of `n`.
pub open spec fn decimal(n: nat) -> Seq<char>
    decreases n,
{
    if n < 10 {
        seq![digit_char(n as int)]
    } else {
        decimal(n / 10) + seq![digit_char((n % 10) as int)]
    }
}

/// A run of `count` empty squares: its decimal count, or nothing.
pub open spec fn run_text(count: nat) -> Seq<char> {
    if count > 0 {
        decimal(count)
    } else {
        seq![]
    }
}

/// FEN text of files `f..9` of `rank`, after `count` empty squares.
pub open spec fn rank_text(g: Seq<u8>, rank: int, f: int, count: nat) -> Seq<char>
    decreases 9 - f,
{
    if f >= 9 {
        run_text(count)
    } else if g[rank * 9 + f] >= 14 {
        rank_text(g, rank, f + 1, count + 1)
    } else {
        run_text(count) + seq![piece_letter(g[rank * 9 + f] as int)] + rank_text(g, rank, f + 1, 0)
    }
}

/// FEN text of the first `k` ranks from rank 9 down, each but rank 0
/// followed by `/`.
pub open spec fn ranks_text(g: Seq<u8>, k: nat) -> Seq<char>
    decreases k,
{
    if k == 0 {
        seq![]
    } else {
        ranks_text(g, (k - 1) as nat) + rank_text(g, 9 - (k - 1), 0, 0) + if k < 10 {
            seq!['/']
        } else {
            seq![]
        }
    }
}

/// The FEN record of a position.
pub open spec fn fen_text(p: Position) -> Seq<char> {
    ranks_text(p.grid@, 10) + seq![
        ' ',
        if p.side == 0 {
            'w'
        } else {
            'b'
        },
    ] + seq![' ', '-', ' ', '-', ' '] + decimal(p.rule as nat) + seq![' '] + decimal(p.ply as nat)
}

/// The byte form of a clock field: its decimal notation, one byte per
/// digit.
pub open spec fn clock_bytes(n: u16) -> Seq<u8> {
    decimal(n as nat).map_values(|c: char| c as u8)
}

/// The bytes that `export_bytes` writes for a position.
pub open spec fn fen_bytes(p: Position) -> Seq<u8> {
    ranks_text(p.grid@, 10).map_values(|c: char| c as u8) + seq![
        32u8,
        if p.side == 0 {
            119u8
        } else {
            98u8
        },
    ] + seq![32u8, 45u8, 32u8, 45u8, 32u8] + clock_bytes(p.rule) + seq![32u8] + clock_bytes(p.ply)
}

/// The bytes written are the characters of the record: what
/// `Serializer::export_bytes` writes is, byte for byte, the text that
/// `Serializer::export` returns.
pub proof fn lemma_bytes_are_text(p: Position)
    ensures
        fen_bytes(p) == fen_text(p).map_values(|c: char| c as u8),
{
    let f = |c: char| c as u8;
    let b = ranks_text(p.grid@, 10);
    let side = seq![' ', if p.side == 0 { 'w' } else { 'b' }];
    let dash = seq![' ', '-', ' ', '-', ' '];
    let d1 = decimal(p.rule as nat);
    let d2 = decimal(p.ply as nat);
    assert(fen_text(p) == b + side + dash + d1 + seq![' '] + d2);
    assert(side.map_values(f) =~= seq![32u8, if p.side == 0 { 119u8 } else { 98u8 }]);
    assert(dash.map_values(f) =~= seq![32u8, 45u8, 32u8, 45u8, 32u8]);
    assert(seq![' '].map_values(f) =~= seq![32u8]);
    assert((b + side + dash + d1 + seq![' '] + d2).map_values(f) =~= b.map_values(f) + side.map_values(f)
        + dash.map_values(f) + d1.map_values(f) + seq![' '].map_values(f) + d2.map_values(f));
    assert(fen_bytes(p) =~= fen_text(p).map_values(f));
}

/// Appends the decimal notation of `n`.
fn push_decimal(out: &mut Vec<char>, n: u32)
    ensures
        final(out)@ == old(out)@ + decimal(n as nat),
    decreases n,
{
    if n >= 10 {
        push_decimal(out, n / 10);
    }
    let d = n % 10;
    out.push(char_of_digit(d));
    assert(final(out)@ =~= old(out)@ + decimal(n as nat));
}

/// The character of digit `d`.
fn char_of_digit(d: u32) -> (c: char)
    requires
        d < 10,
    ensures
        c == digit_char(d as int),
{
    match d {
        0 => '0',
        1 => '1',
        2 => '2',
        3 => '3',
        4 => '4',
        5 => '5',
        6 => '6',
        7 => '7',
        8 => '8',
        _ => '9',
    }
}

/// Appends the board field of `pos`.
fn push_board(out: &mut Vec<char>, pos: &Position)
    ensures
        final(out)@ == old(out)@ + ranks_text(pos.grid@, 10),
{
    let mut k: usize = 0;
    while k < 10
        invariant
            k <= 10,
            out@ == old(out)@ + ranks_text(pos.grid@, k as nat),
        decreases 10 - k,
    {
        let rank = 9 - k;
        let ghost before = out@;
        let mut count: u32 = 0;
        let mut f: usize = 0;
        while f < 9
            invariant
                f <= 9,
                rank < 10,
                count <= f,
                before + rank_text(pos.grid@, rank as int, 0, 0) == out@ + rank_text(
                    pos.grid@,
                    rank as int,
                    f as int,
                    count as nat,
                ),
            decreases 9 - f,
        {
            let piece = Piece::make(pos.grid[rank * 9 + f]);
            if piece.empty() {
                count += 1;
            } else {
                let ghost o = out@;
                let ghost c0 = count;
                if count > 0 {
                    push_decimal(out, count);
                }
                count = 0;
                out.push(piece.char());
                assert(out@ + rank_text(pos.grid@, rank as int, (f + 1) as int, 0) =~= o
                    + rank_text(pos.grid@, rank as int, f as int, c0 as nat));
            }
            f += 1;
        }
        if count > 0 {
            push_decimal(out, count);
        }
        assert(out@ =~= before + rank_text(pos.grid@, rank as int, 0, 0));
        if k < 9 {
            out.push('/');
        }
        assert(out@ =~= old(out)@ + ranks_text(pos.grid@, (k + 1) as nat));
        k += 1;
    }
}

/// The characters of `v` as a `String`.
///
/// Trusted: collects the characters with `Iterator::collect` into a
/// `String`, which std documents as holding those characters in order.
#[verifier::external_body]
fn text_of(v: &Vec<char>) -> (r: String)
    ensures
        r@ == v@,
{
    v.iter().collect()
}

/// FEN writing.
pub struct Serializer;

impl Serializer {
    /// The FEN record of `pos`: board, side to move (`w` when `side` is 0,
    /// else `b`), `- -`, half-move clock and ply.
    pub fn export(pos: &Position) -> (r: String)
        ensures
            r@ == fen_text(*pos),
    {
        let mut out: Vec<char> = Vec::new();
        push_board(&mut out, pos);
        out.push(' ');
        if pos.side == 0 {
            out.push('w');
        } else {
            out.push('b');
        }
        out.push(' ');
        out.push('-');
        out.push(' ');
        out.push('-');
        out.push(' ');
        push_decimal(&mut out, pos.rule as u32);
        out.push(' ');
        push_decimal(&mut out, pos.ply as u32);
        assert(out@ =~= fen_text(*pos));
        text_of(&out)
    }

    /// Writes the FEN record of `pos` into `buf` as bytes, with the clock
    /// fields in decimal as `clock_bytes` gives them, and returns how many
    /// bytes it wrote; the rest of `buf` is left as it was. The record must
    /// fit in the buffer.
    pub fn export_bytes(pos: &Position, buf: &mut [u8; 96]) -> (r: usize)
        requires
            fen_bytes(*pos).len() <= 96,
        ensures
            r == fen_bytes(*pos).len(),
            final(buf)@.subrange(0, r as int) == fen_bytes(*pos),
            forall|i: int| r <= i < 96 ==> #[trigger] final(buf)@[i] == old(buf)@[i],
    {
        let ghost target = fen_bytes(*pos);
        let mut board: Vec<char> = Vec::new();
        push_board(&mut board, pos);
        assert(board@ == ranks_text(pos.grid@, 10));
        let ghost a = ranks_text(pos.grid@, 10).map_values(|c: char| c as u8);
        let ghost t1 = seq![32u8, if pos.side == 0 { 119u8 } else { 98u8 }] + seq![32u8, 45u8, 32u8, 45u8, 32u8];
        let ghost cr = clock_bytes(pos.rule);
        let ghost cp = clock_bytes(pos.ply);
        assert(target =~= a + t1 + cr + seq![32u8] + cp);
        assert(target.subrange(a.len() + 7int, a.len() + 7int + cr.len()) =~= cr);
        assert(target.subrange(a.len() + 8int + cr.len(), a.len() + 8int + cr.len() + cp.len()) =~= cp);
        let mut idx: usize = 0;
        while idx < board.len()
            invariant
                idx <= board@.len(),
                board@ == ranks_text(pos.grid@, 10),
                target == fen_bytes(*pos),
                target == a + t1 + cr + seq![32u8] + cp,
                a == ranks_text(pos.grid@, 10).map_values(|c: char| c as u8),
                target.len() <= 96,
                forall|i: int| 0 <= i < idx ==> #[trigger] buf@[i] == target[i],
                forall|i: int| idx <= i < 96 ==> #[trigger] buf@[i] == old(buf)@[i],
            decreases board@.len() - idx,
        {
            assert(target[idx as int] == a[idx as int]);
            buf[idx] = board[idx] as u8;
            idx += 1;
        }
        let n0 = idx;
        let tail: [u8; 7] = [32u8, if pos.side == 0 { 119u8 } else { 98u8 }, 32u8, 45u8, 32u8, 45u8, 32u8];
        assert forall|i: int| 0 <= i < 7 implies #[trigger] tail@[i] == target[n0 + i] by {
            assert(target[n0 + i] == t1[i]);
        }
        let mut j: usize = 0;
        while j < 7
            invariant
                j <= 7,
                idx == n0 + j,
                n0 == board@.len(),
                board@ == ranks_text(pos.grid@, 10),
                target == fen_bytes(*pos),
                target == a + t1 + cr + seq![32u8] + cp,
                a.len() == n0,
                target.len() <= 96,
                forall|i: int| 0 <= i < 7 ==> #[trigger] tail@[i] == target[n0 + i],
                forall|i: int| 0 <= i < idx ==> #[trigger] buf@[i] == target[i],
                forall|i: int| idx <= i < 96 ==> #[trigger] buf@[i] == old(buf)@[i],
            decreases 7 - j,
        {
            buf[idx] = tail[j];
            idx += 1;
            j += 1;
        }
        idx = put_clock(buf, idx, pos.rule, Ghost(target));
        assert(target[idx as int] == 32u8);
        buf[idx] = 32u8;
        idx += 1;
        idx = put_clock(buf, idx, pos.ply, Ghost(target));
        assert(buf@.subrange(0, idx as int) =~= target);
        idx
    }
}
/// Writes the clock bytes of `n` at `idx`, where `target` expects them.
fn put_clock(buf: &mut [u8; 96], idx: usize, n: u16, target: Ghost<Seq<u8>>) -> (r: usize)
    requires
        idx + clock_bytes(n).len() <= target@.len() <= 96,
        target@.subrange(idx as int, idx + clock_bytes(n).len()) == clock_bytes(n),
        forall|i: int| 0 <= i < idx ==> #[trigger] old(buf)@[i] == target@[i],
    ensures
        r == idx + clock_bytes(n).len(),
        forall|i: int| 0 <= i < r ==> #[trigger] final(buf)@[i] == target@[i],
        forall|i: int| r <= i < 96 ==> #[trigger] final(buf)@[i] == old(buf)@[i],
{
    let mut d: Vec<char> = Vec::new();
    push_decimal(&mut d, n as u32);
    assert(d@ =~= decimal(n as nat));
    let ghost cb = clock_bytes(n);
    assert(forall|i: int| 0 <= i < cb.len() ==> #[trigger] cb[i] == target@[idx + i]) by {
        assert forall|i: int| 0 <= i < cb.len() implies #[trigger] cb[i] == target@[idx + i] by {
            assert(target@.subrange(idx as int, idx + cb.len())[i] == target@[idx + i]);
        }
    }
    let mut k: usize = 0;
    while k < d.len()
        invariant
            k <= d@.len(),
            d@ == decimal(n as nat),
            cb == clock_bytes(n),
            cb.len() == d@.len(),
            idx + cb.len() <= target@.len() <= 96,
            forall|i: int| 0 <= i < cb.len() ==> #[trigger] cb[i] == target@[idx + i],
            forall|i: int| 0 <= i < idx + k ==> #[trigger] buf@[i] == target@[i],
            forall|i: int| idx + k <= i < 96 ==> #[trigger] buf@[i] == old(buf)@[i],
        decreases d@.len() - k,
    {
        assert(cb[k as int] == (d@[k as int] as u8));
        buf[idx + k] = d[k] as u8;
        k += 1;
    }
    idx + d.len()
}

} // verus!
