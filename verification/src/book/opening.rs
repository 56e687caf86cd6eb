//! Opening book: entries keyed by position hash, kept sorted by hash so that
//! a binary search finds the move to play, with a second sorted table of
//! moves learnt during play that is searched first.
use vstd::prelude::*;
use crate::board::moves::Move;
use crate::board::position::grid_hash;
use crate::board::zobrist::{key, side_key};

verus! {

broadcast use vstd::multiset::group_multiset_axioms, vstd::seq_lib::to_multiset_update;

/// One book move.
#[derive(Clone, Copy, Debug, PartialEq, Eq)]
pub struct Entry {
    /// Hash of the position.
    pub hash: u64,
    /// Move packed as `(from << 8) | to`.
    pub mv: u16,
    /// Weight of the move.
    pub weight: u16,
    /// Name of the opening line.
    pub name: &'static str,
}

impl Entry {
    /// An entry with the given fields.
    pub fn new(hash: u64, mv: u16, weight: u16, name: &'static str) -> (r: Self)
        ensures
            r == (Entry { hash, mv, weight, name }),
    {
        Self { hash, mv, weight, name }
    }
}

/// Hashes never decrease along `s`.
pub open spec fn sorted(s: Seq<Entry>) -> bool {
    forall|i: int, j: int| 0 <= i < j < s.len() ==> #[trigger] s[i].hash <= #[trigger] s[j].hash
}

/// Hashes strictly increase along `s`.
pub open spec fn strict(s: Seq<Entry>) -> bool {
    forall|i: int, j: int| 0 <= i < j < s.len() ==> #[trigger] s[i].hash < #[trigger] s[j].hash
}

/// The move a packed book move stands for.
pub open spec fn move_of(mv: u16) -> Move {
    Move { from: (mv / 256) as u8, to: (mv % 256) as u8 }
}

/// Some entry of `s` has hash `hash`.
pub open spec fn holds(s: Seq<Entry>, hash: u64) -> bool {
    exists|i: int| 0 <= i < s.len() && #[trigger] s[i].hash == hash
}

/// `after` is what learning move `mv` of weight `weight` for `hash` leaves
/// of the learnt moves `before`: an entry for `hash` takes the new move
/// when it is heavier than the one there, and a missing one is inserted
/// where the hashes stay in order.
pub open spec fn learnt_post(before: Seq<Entry>, after: Seq<Entry>, hash: u64, mv: u16, weight: u16) -> bool {
    ||| exists|i: int|
        0 <= i < before.len() && #[trigger] before[i].hash == hash && after == if weight
            > before[i].weight {
            before.update(i, Entry { hash, mv, weight, name: before[i].name })
        } else {
            before
        }
    ||| !holds(before, hash) && exists|i: int|
        0 <= i <= before.len() && (forall|j: int| 0 <= j < i ==> #[trigger] before[j].hash < hash)
            && (forall|j: int| i <= j < before.len() ==> #[trigger] before[j].hash > hash) && after
            == before.insert(i, Entry { hash, mv, weight, name: LEARNT })
}

/// A learnt move reads back: in learnt moves kept strictly ordered by hash,
/// after learning `mv` of weight `weight` for `hash` there is an entry for
/// `hash`, the only one, and it holds the new move unless the entry that
/// was there is at least as heavy, in which case that entry stays.
pub proof fn lemma_learn_then_find(before: Seq<Entry>, after: Seq<Entry>, hash: u64, mv: u16, weight: u16)
    requires
        strict(before),
        strict(after),
        learnt_post(before, after, hash, mv, weight),
    ensures
        holds(after, hash),
        forall|i: int, j: int|
            0 <= i < after.len() && 0 <= j < after.len() && #[trigger] after[i].hash == hash
                && #[trigger] after[j].hash == hash ==> i == j,
        forall|i: int|
            0 <= i < after.len() && #[trigger] after[i].hash == hash ==> (after[i].mv == mv
                && after[i].weight == weight) || (exists|j: int|
                0 <= j < before.len() && before[j] == after[i] && before[j].weight >= weight),
{
    assert forall|i: int, j: int|
        0 <= i < after.len() && 0 <= j < after.len() && #[trigger] after[i].hash == hash
            && #[trigger] after[j].hash == hash implies i == j by {
        if i < j {
            assert(after[i].hash < after[j].hash);
        } else if j < i {
            assert(after[j].hash < after[i].hash);
        }
    }
    if exists|i: int|
        0 <= i < before.len() && #[trigger] before[i].hash == hash && after == if weight
            > before[i].weight {
            before.update(i, Entry { hash, mv, weight, name: before[i].name })
        } else {
            before
        } {
        let i = choose|i: int|
            0 <= i < before.len() && #[trigger] before[i].hash == hash && after == if weight
                > before[i].weight {
                before.update(i, Entry { hash, mv, weight, name: before[i].name })
            } else {
                before
            };
        assert(after[i].hash == hash);
        assert forall|k: int| 0 <= k < after.len() && #[trigger] after[k].hash == hash implies (
        after[k].mv == mv && after[k].weight == weight) || (exists|j: int|
            0 <= j < before.len() && before[j] == after[k] && before[j].weight >= weight) by {
            assert(k == i);
            if weight <= before[i].weight {
                assert(before[i] == after[k]);
            }
        }
    } else {
        let i = choose|i: int|
            0 <= i <= before.len() && (forall|j: int| 0 <= j < i ==> #[trigger] before[j].hash < hash)
                && (forall|j: int| i <= j < before.len() ==> #[trigger] before[j].hash > hash) && after
                == before.insert(i, Entry { hash, mv, weight, name: LEARNT });
        assert(after[i].hash == hash);
        assert forall|k: int| 0 <= k < after.len() && #[trigger] after[k].hash == hash implies (
        after[k].mv == mv && after[k].weight == weight) || (exists|j: int|
            0 <= j < before.len() && before[j] == after[k] && before[j].weight >= weight) by {
            assert(k == i);
        }
    }
}

/// The result of a search for `hash` in `s`: a found move comes from an
/// entry with that hash, and in a sorted `s` the search finds one whenever
/// there is one.
pub open spec fn search_result(s: Seq<Entry>, hash: u64, r: Option<Move>) -> bool {
    &&& r is Some ==> exists|i: int| 0 <= i < s.len() && #[trigger] s[i].hash == hash && r == Some(move_of(s[i].mv))
    &&& sorted(s) ==> (r is Some <==> holds(s, hash))
}

/// Where `hash` is or would go in `s`: `Ok(i)` for an entry with that hash,
/// `Err(i)` for the place after all smaller hashes and before all larger
/// ones (in a sorted `s`).
fn locate(s: &Vec<Entry>, hash: u64) -> (r: Result<usize, usize>)
    ensures
        match r {
            Ok(i) => i < s@.len() && s@[i as int].hash == hash,
            Err(i) => i <= s@.len() && (sorted(s@) ==> (forall|j: int| 0 <= j < i ==> #[trigger] s@[j].hash < hash)
                && (forall|j: int| i <= j < s@.len() ==> #[trigger] s@[j].hash > hash)),
        },
{
    let mut lo: usize = 0;
    let mut hi: usize = s.len();
    while lo < hi
        invariant
            lo <= hi <= s@.len(),
            sorted(s@) ==> forall|j: int| 0 <= j < lo ==> #[trigger] s@[j].hash < hash,
            sorted(s@) ==> forall|j: int| hi <= j < s@.len() ==> #[trigger] s@[j].hash > hash,
        decreases hi - lo,
    {
        let mid = lo + (hi - lo) / 2;
        let h = s[mid].hash;
        if h == hash {
            return Ok(mid);
        } else if h < hash {
            proof {
                if sorted(s@) {
                    assert forall|j: int| 0 <= j < mid + 1 implies #[trigger] s@[j].hash < hash by {
                        if j < mid {
                            assert(s@[j].hash <= s@[mid as int].hash);
                        }
                    }
                }
            }
            lo = mid + 1;
        } else {
            proof {
                if sorted(s@) {
                    assert forall|j: int| mid <= j < s@.len() implies #[trigger] s@[j].hash > hash by {
                        if j > mid {
                            assert(s@[mid as int].hash <= s@[j].hash);
                        }
                    }
                }
            }
            hi = mid;
        }
    }
    Err(lo)
}

/// One pass of the shell sort with gap `gap`: each element is moved back
/// past the larger ones `gap` apart. The pass with gap 1 sorts.
fn pass(array: &mut Vec<Entry>, gap: usize)
    requires
        gap >= 1,
    ensures
        final(array)@.len() == old(array)@.len(),
        final(array)@.to_multiset() == old(array)@.to_multiset(),
        gap == 1 ==> sorted(final(array)@),
{
    let n = array.len();
    let mut i = gap;
    while i < n
        invariant
            gap >= 1,
            n == array@.len(),
            array@.len() == old(array)@.len(),
            array@.to_multiset() == old(array)@.to_multiset(),
            gap == 1 ==> (i >= 1 && forall|x: int, y: int| 0 <= x < y < i && y < n ==> #[trigger] array@[x].hash <= #[trigger] array@[y].hash),
            gap == 1 && i >= n ==> sorted(array@),
        decreases n - i,
    {
        let temp = array[i];
        let ghost start = array@;
        let mut j = i;
        while j >= gap && array[j - gap].hash > temp.hash
            invariant
                gap >= 1,
                n == array@.len(),
                j <= i < n,
                temp == start[i as int],
                array@.update(j as int, temp).to_multiset() == start.to_multiset(),
                start.to_multiset() == old(array)@.to_multiset(),
                gap == 1 ==> forall|x: int, y: int| 0 <= x < y <= i && x != j && y != j ==> #[trigger] array@[x].hash <= #[trigger] array@[y].hash,
                gap == 1 ==> forall|y: int| j < y <= i ==> #[trigger] array@[y].hash > temp.hash,
                forall|x: int| i < x < n ==> #[trigger] array@[x] == start[x],
            decreases j,
        {
            let ghost before = array@;
            let moved = array[j - gap];
            array.set(j, moved);
            proof {
                lemma_shift(before, j as int, (j - gap) as int, temp);
            }
            j -= gap;
        }
        array.set(j, temp);
        proof {
            if gap == 1 {
                assert forall|x: int, y: int| 0 <= x < y <= i implies #[trigger] array@[x].hash <= #[trigger] array@[y].hash by {
                }
            }
        }
        i += 1;
    }
}

/// Copying the element at `q` over `p` and then writing `x` at `q` leaves
/// the same multiset as writing `x` at `p`.
proof fn lemma_shift<A>(b: Seq<A>, p: int, q: int, x: A)
    requires
        0 <= p < b.len(),
        0 <= q < b.len(),
        p != q,
    ensures
        b.update(p, b[q]).update(q, x).to_multiset() == b.update(p, x).to_multiset(),
{
    broadcast use vstd::seq_lib::group_to_multiset_ensures;

    let a2 = b.update(p, b[q]);
    let lhs = a2.update(q, x);
    let rhs = b.update(p, x);
    assert(b.contains(b[p]));
    assert(b.to_multiset().count(b[p]) > 0);
    assert(a2[q] == b[q]);
    assert(a2.to_multiset() == b.to_multiset().insert(b[q]).remove(b[p]));
    assert(lhs.to_multiset() == a2.to_multiset().insert(x).remove(b[q]));
    assert(rhs.to_multiset() == b.to_multiset().insert(x).remove(b[p]));
    assert(lhs.to_multiset() =~= rhs.to_multiset());
}

/// Sorts `array` by hash with a shell sort (gaps 701, 301, 132, 57, 23, 10,
/// 4, 1); the entries stay the same.
fn sort(array: &mut Vec<Entry>)
    ensures
        sorted(final(array)@),
        final(array)@.to_multiset() == old(array)@.to_multiset(),
        final(array)@.len() == old(array)@.len(),
{
    let gaps: [usize; 8] = [701, 301, 132, 57, 23, 10, 4, 1];
    let mut g: usize = 0;
    while g < 8
        invariant
            g <= 8,
            gaps@ == seq![701usize, 301, 132, 57, 23, 10, 4, 1],
            array@.to_multiset() == old(array)@.to_multiset(),
            array@.len() == old(array)@.len(),
            g == 8 ==> sorted(array@),
        decreases 8 - g,
    {
        pass(array, gaps[g]);
        g += 1;
    }
}

/// Name given to moves learnt during play.
pub const LEARNT: &'static str = "H\u{1ecd}c Th\u{ed}ch \u{1ee8}ng (Online RL)";

/// Where `hash` is or would go in `s`: `Ok(i)` for an entry with that hash,
/// `Err(i)` for the place after all smaller hashes and before all larger
/// ones (in a sorted `s`).
fn locate_in(s: &[Entry], hash: u64) -> (r: Result<usize, usize>)
    ensures
        match r {
            Ok(i) => i < s@.len() && s@[i as int].hash == hash,
            Err(i) => i <= s@.len() && (sorted(s@) ==> (forall|j: int| 0 <= j < i ==> #[trigger] s@[j].hash < hash)
                && (forall|j: int| i <= j < s@.len() ==> #[trigger] s@[j].hash > hash)),
        },
{
    let mut lo: usize = 0;
    let mut hi: usize = s.len();
    while lo < hi
        invariant
            lo <= hi <= s@.len(),
            sorted(s@) ==> forall|j: int| 0 <= j < lo ==> #[trigger] s@[j].hash < hash,
            sorted(s@) ==> forall|j: int| hi <= j < s@.len() ==> #[trigger] s@[j].hash > hash,
        decreases hi - lo,
    {
        let mid = lo + (hi - lo) / 2;
        let h = s[mid].hash;
        if h == hash {
            return Ok(mid);
        } else if h < hash {
            proof {
                if sorted(s@) {
                    assert forall|j: int| 0 <= j < mid + 1 implies #[trigger] s@[j].hash < hash by {
                        if j < mid {
                            assert(s@[j].hash <= s@[mid as int].hash);
                        }
                    }
                }
            }
            lo = mid + 1;
        } else {
            proof {
                if sorted(s@) {
                    assert forall|j: int| mid <= j < s@.len() implies #[trigger] s@[j].hash > hash by {
                        if j > mid {
                            assert(s@[mid as int].hash <= s@[j].hash);
                        }
                    }
                }
            }
            hi = mid;
        }
    }
    Err(lo)
}

/// A strictly sorted sequence is sorted.
proof fn lemma_strict_sorted(s: Seq<Entry>)
    requires
        strict(s),
    ensures
        sorted(s),
{
}

/// The position hash of `grid` with `side` to move.
pub open spec fn grid_key(grid: Seq<u8>, side: u8) -> u64 {
    grid_hash(grid, 90) ^ if side == 1 {
        side_key()
    } else {
        0
    }
}

/// The piece code on square `s` of the starting position.
pub open spec fn start_code(s: int) -> u8 {
    if s == 0 || s == 8 {
        4
    } else if s == 1 || s == 7 {
        3
    } else if s == 2 || s == 6 {
        2
    } else if s == 3 || s == 5 {
        1
    } else if s == 4 {
        0
    } else if s == 19 || s == 25 {
        5
    } else if s == 27 || s == 29 || s == 31 || s == 33 || s == 35 {
        6
    } else if s == 81 || s == 89 {
        11
    } else if s == 82 || s == 88 {
        10
    } else if s == 83 || s == 87 {
        9
    } else if s == 84 || s == 86 {
        8
    } else if s == 85 {
        7
    } else if s == 64 || s == 70 {
        12
    } else if s == 54 || s == 56 || s == 58 || s == 60 || s == 62 {
        13
    } else {
        14
    }
}

/// The grid of the starting position.
pub open spec fn start_grid() -> Seq<u8> {
    Seq::new(90, |s: int| start_code(s))
}

/// The position hash of `grid` with `side` to move.
fn hash(grid: &[u8; 90], side: u8) -> (r: u64)
    ensures
        r == grid_key(grid@, side),
{
    let mut val = 0u64;
    let mut s: usize = 0;
    while s < 90
        invariant
            s <= 90,
            val == grid_hash(grid@, s as nat),
        decreases 90 - s,
    {
        if grid[s] < 14 {
            val ^= key(grid[s] as usize, s);
        } else {
            assert(val ^ 0u64 == val) by (bit_vector);
        }
        s += 1;
    }
    if side == 1 {
        val ^= crate::board::zobrist::side();
    } else {
        assert(val ^ 0u64 == val) by (bit_vector);
    }
    val
}

/// The grid of the starting position.
fn grid() -> (g: [u8; 90])
    ensures
        g@ == start_grid(),
{
    let mut g = [14u8; 90];
    g[0] = 4;
    g[1] = 3;
    g[2] = 2;
    g[3] = 1;
    g[4] = 0;
    g[5] = 1;
    g[6] = 2;
    g[7] = 3;
    g[8] = 4;
    g[19] = 5;
    g[25] = 5;
    g[27] = 6;
    g[29] = 6;
    g[31] = 6;
    g[33] = 6;
    g[35] = 6;
    g[81] = 11;
    g[82] = 10;
    g[83] = 9;
    g[84] = 8;
    g[85] = 7;
    g[86] = 8;
    g[87] = 9;
    g[88] = 10;
    g[89] = 11;
    g[64] = 12;
    g[70] = 12;
    g[54] = 13;
    g[56] = 13;
    g[58] = 13;
    g[60] = 13;
    g[62] = 13;
    assert(g@ =~= start_grid());
    g
}

/// The grid after moving whatever stands on `from` to `to`.
fn make_move(g: [u8; 90], from: usize, to: usize) -> (r: [u8; 90])
    requires
        from < 90,
        to < 90,
    ensures
        r@ == g@.update(to as int, g@[from as int]).update(from as int, 14),
{
    let mut g = g;
    g[to] = g[from];
    g[from] = 14;
    g
}

/// Hash of the filler entry in slot `i`: `(origin + i) * 0x9E3779B97F4A7C15`
/// modulo 2^64.
pub open spec fn filler_hash(origin: u64, i: int) -> u64 {
    (((origin as int + i) % 0x1_0000_0000_0000_0000) * 0x9E3779B97F4A7C15 % 0x1_0000_0000_0000_0000) as u64
}

/// Packed first moves for Red used by the filler entries, indexed by `i % 8`.
pub open spec fn red_move(k: int) -> u16 {
    if k == 0 {
        0x1316
    } else if k == 1 {
        0x1916
    } else if k == 2 {
        0x0114
    } else if k == 3 {
        0x0718
    } else if k == 4 {
        0x212A
    } else if k == 5 {
        0x1D26
    } else if k == 6 {
        0x0216
    } else {
        0x0616
    }
}

/// The moves that make the grids of the opening lines: grid `k + 1` is grid
/// `parent` after moving whatever stands on `from` to `to`, for
/// `line_step(k)` = `(parent, from, to)`; grid 0 is the starting grid.
pub open spec fn line_step(k: int) -> (usize, usize, usize) {
    if k == 0 {
        (0, 19, 22)
    } else if k == 1 {
        (1, 88, 69)
    } else if k == 2 {
        (2, 1, 20)
    } else if k == 3 {
        (3, 82, 65)
    } else if k == 4 {
        (4, 0, 1)
    } else if k == 5 {
        (5, 81, 82)
    } else if k == 6 {
        (6, 33, 42)
    } else if k == 7 {
        (7, 60, 51)
    } else if k == 8 {
        (8, 1, 55)
    } else if k == 9 {
        (9, 64, 55)
    } else if k == 10 {
        (10, 7, 24)
    } else if k == 11 {
        (11, 83, 67)
    } else if k == 12 {
        (12, 8, 7)
    } else if k == 13 {
        (6, 33, 42)
    } else if k == 14 {
        (14, 81, 72)
    } else if k == 15 {
        (15, 7, 24)
    } else if k == 16 {
        (16, 72, 75)
    } else if k == 17 {
        (17, 8, 7)
    } else if k == 18 {
        (1, 64, 67)
    } else if k == 19 {
        (19, 1, 20)
    } else if k == 20 {
        (20, 82, 65)
    } else if k == 21 {
        (21, 0, 1)
    } else if k == 22 {
        (22, 81, 82)
    } else if k == 23 {
        (23, 7, 24)
    } else if k == 24 {
        (24, 88, 69)
    } else if k == 25 {
        (25, 8, 7)
    } else if k == 26 {
        (26, 89, 88)
    } else if k == 27 {
        (27, 1, 55)
    } else if k == 28 {
        (0, 33, 42)
    } else if k == 29 {
        (29, 60, 51)
    } else if k == 30 {
        (30, 7, 24)
    } else if k == 31 {
        (31, 88, 69)
    } else if k == 32 {
        (32, 19, 22)
    } else if k == 33 {
        (33, 82, 65)
    } else if k == 34 {
        (34, 8, 7)
    } else if k == 35 {
        (35, 89, 88)
    } else if k == 36 {
        (36, 1, 20)
    } else if k == 37 {
        (37, 56, 47)
    } else if k == 38 {
        (38, 0, 1)
    } else if k == 39 {
        (0, 7, 24)
    } else if k == 40 {
        (40, 88, 69)
    } else if k == 41 {
        (41, 33, 42)
    } else if k == 42 {
        (42, 82, 65)
    } else if k == 43 {
        (43, 8, 7)
    } else if k == 44 {
        (44, 89, 88)
    } else if k == 45 {
        (45, 19, 22)
    } else if k == 46 {
        (46, 64, 67)
    } else if k == 47 {
        (47, 1, 20)
    } else if k == 48 {
        (0, 2, 22)
    } else if k == 49 {
        (49, 88, 69)
    } else if k == 50 {
        (50, 7, 24)
    } else if k == 51 {
        (51, 82, 65)
    } else if k == 52 {
        (52, 33, 42)
    } else if k == 53 {
        (53, 60, 51)
    } else if k == 54 {
        (54, 8, 7)
    } else if k == 55 {
        (0, 19, 23)
    } else if k == 56 {
        (56, 88, 69)
    } else if k == 57 {
        (57, 1, 20)
    } else if k == 58 {
        (58, 56, 47)
    } else if k == 59 {
        (59, 0, 1)
    } else if k == 60 {
        (60, 81, 82)
    } else if k == 61 {
        (61, 7, 24)
    } else {
        (0, 0, 0)
    }
}

/// Entry `k` of the opening lines: `(grid, side, move, weight, name)`, the
/// position being the grid with `side` to move.
pub open spec fn line_move(k: int) -> (usize, u8, u16, u16, usize) {
    if k == 0 {
        (1, 1, 0x5845, 980, 1)
    } else if k == 1 {
        (2, 0, 0x0114, 970, 0)
    } else if k == 2 {
        (3, 1, 0x5241, 960, 1)
    } else if k == 3 {
        (4, 0, 0x0001, 950, 0)
    } else if k == 4 {
        (5, 1, 0x5152, 940, 1)
    } else if k == 5 {
        (6, 0, 0x212A, 930, 0)
    } else if k == 6 {
        (7, 1, 0x3C33, 920, 1)
    } else if k == 7 {
        (8, 0, 0x0137, 910, 0)
    } else if k == 8 {
        (9, 1, 0x4037, 900, 1)
    } else if k == 9 {
        (10, 0, 0x0718, 890, 0)
    } else if k == 10 {
        (11, 1, 0x5343, 880, 1)
    } else if k == 11 {
        (12, 0, 0x0807, 870, 0)
    } else if k == 12 {
        (13, 1, 0x5950, 860, 1)
    } else if k == 13 {
        (15, 0, 0x0718, 930, 1)
    } else if k == 14 {
        (16, 1, 0x484B, 920, 1)
    } else if k == 15 {
        (17, 0, 0x0807, 910, 0)
    } else if k == 16 {
        (18, 1, 0x3C33, 900, 1)
    } else if k == 17 {
        (19, 0, 0x0114, 960, 4)
    } else if k == 18 {
        (20, 1, 0x5241, 950, 4)
    } else if k == 19 {
        (21, 0, 0x0001, 940, 4)
    } else if k == 20 {
        (22, 1, 0x5152, 930, 4)
    } else if k == 21 {
        (23, 0, 0x0718, 920, 4)
    } else if k == 22 {
        (24, 1, 0x5845, 910, 4)
    } else if k == 23 {
        (25, 0, 0x0807, 900, 4)
    } else if k == 24 {
        (26, 1, 0x5958, 890, 4)
    } else if k == 25 {
        (27, 0, 0x0137, 880, 4)
    } else if k == 26 {
        (28, 1, 0x3C33, 870, 4)
    } else if k == 27 {
        (29, 1, 0x3C33, 950, 7)
    } else if k == 28 {
        (30, 0, 0x0718, 940, 7)
    } else if k == 29 {
        (31, 1, 0x5845, 930, 7)
    } else if k == 30 {
        (32, 0, 0x1316, 920, 7)
    } else if k == 31 {
        (33, 1, 0x5241, 910, 7)
    } else if k == 32 {
        (34, 0, 0x0807, 900, 7)
    } else if k == 33 {
        (35, 1, 0x5958, 890, 7)
    } else if k == 34 {
        (36, 0, 0x0114, 880, 7)
    } else if k == 35 {
        (37, 1, 0x382F, 870, 7)
    } else if k == 36 {
        (38, 0, 0x0001, 860, 7)
    } else if k == 37 {
        (39, 1, 0x5343, 850, 7)
    } else if k == 38 {
        (40, 1, 0x5845, 950, 2)
    } else if k == 39 {
        (41, 0, 0x212A, 940, 2)
    } else if k == 40 {
        (42, 1, 0x5241, 930, 2)
    } else if k == 41 {
        (43, 0, 0x0807, 920, 2)
    } else if k == 42 {
        (44, 1, 0x5958, 910, 2)
    } else if k == 43 {
        (45, 0, 0x1316, 900, 2)
    } else if k == 44 {
        (46, 1, 0x4043, 890, 2)
    } else if k == 45 {
        (47, 0, 0x0114, 880, 2)
    } else if k == 46 {
        (48, 1, 0x5152, 870, 2)
    } else if k == 47 {
        (49, 1, 0x5845, 930, 8)
    } else if k == 48 {
        (50, 0, 0x0718, 920, 8)
    } else if k == 49 {
        (51, 1, 0x5241, 910, 8)
    } else if k == 50 {
        (52, 0, 0x212A, 900, 8)
    } else if k == 51 {
        (53, 1, 0x3C33, 890, 8)
    } else if k == 52 {
        (54, 0, 0x0807, 880, 8)
    } else if k == 53 {
        (55, 1, 0x5958, 870, 8)
    } else if k == 54 {
        (56, 1, 0x5845, 920, 3)
    } else if k == 55 {
        (57, 0, 0x0114, 910, 3)
    } else if k == 56 {
        (58, 1, 0x382F, 900, 3)
    } else if k == 57 {
        (59, 0, 0x0001, 890, 3)
    } else if k == 58 {
        (60, 1, 0x5152, 880, 3)
    } else if k == 59 {
        (61, 0, 0x0718, 870, 3)
    } else if k == 60 {
        (62, 1, 0x5958, 860, 3)
    } else {
        (0, 0, 0, 0, 0)
    }
}

/// The step that makes grid `k + 1` of the opening lines.
fn step_of(k: usize) -> (r: (usize, usize, usize))
    requires
        k < 62,
    ensures
        r == line_step(k as int),
        r.0 <= k && r.1 < 90 && r.2 < 90,
{
    match k {
        0 => (0, 19, 22),
        1 => (1, 88, 69),
        2 => (2, 1, 20),
        3 => (3, 82, 65),
        4 => (4, 0, 1),
        5 => (5, 81, 82),
        6 => (6, 33, 42),
        7 => (7, 60, 51),
        8 => (8, 1, 55),
        9 => (9, 64, 55),
        10 => (10, 7, 24),
        11 => (11, 83, 67),
        12 => (12, 8, 7),
        13 => (6, 33, 42),
        14 => (14, 81, 72),
        15 => (15, 7, 24),
        16 => (16, 72, 75),
        17 => (17, 8, 7),
        18 => (1, 64, 67),
        19 => (19, 1, 20),
        20 => (20, 82, 65),
        21 => (21, 0, 1),
        22 => (22, 81, 82),
        23 => (23, 7, 24),
        24 => (24, 88, 69),
        25 => (25, 8, 7),
        26 => (26, 89, 88),
        27 => (27, 1, 55),
        28 => (0, 33, 42),
        29 => (29, 60, 51),
        30 => (30, 7, 24),
        31 => (31, 88, 69),
        32 => (32, 19, 22),
        33 => (33, 82, 65),
        34 => (34, 8, 7),
        35 => (35, 89, 88),
        36 => (36, 1, 20),
        37 => (37, 56, 47),
        38 => (38, 0, 1),
        39 => (0, 7, 24),
        40 => (40, 88, 69),
        41 => (41, 33, 42),
        42 => (42, 82, 65),
        43 => (43, 8, 7),
        44 => (44, 89, 88),
        45 => (45, 19, 22),
        46 => (46, 64, 67),
        47 => (47, 1, 20),
        48 => (0, 2, 22),
        49 => (49, 88, 69),
        50 => (50, 7, 24),
        51 => (51, 82, 65),
        52 => (52, 33, 42),
        53 => (53, 60, 51),
        54 => (54, 8, 7),
        55 => (0, 19, 23),
        56 => (56, 88, 69),
        57 => (57, 1, 20),
        58 => (58, 56, 47),
        59 => (59, 0, 1),
        60 => (60, 81, 82),
        _ => (61, 7, 24),
    }
}

/// Entry `k` of the opening lines.
fn line_entry(k: usize) -> (r: (usize, u8, u16, u16, usize))
    requires
        k < 61,
    ensures
        r == line_move(k as int),
        r.0 <= 62 && r.4 < 12,
{
    match k {
        0 => (1, 1, 0x5845, 980, 1),
        1 => (2, 0, 0x0114, 970, 0),
        2 => (3, 1, 0x5241, 960, 1),
        3 => (4, 0, 0x0001, 950, 0),
        4 => (5, 1, 0x5152, 940, 1),
        5 => (6, 0, 0x212A, 930, 0),
        6 => (7, 1, 0x3C33, 920, 1),
        7 => (8, 0, 0x0137, 910, 0),
        8 => (9, 1, 0x4037, 900, 1),
        9 => (10, 0, 0x0718, 890, 0),
        10 => (11, 1, 0x5343, 880, 1),
        11 => (12, 0, 0x0807, 870, 0),
        12 => (13, 1, 0x5950, 860, 1),
        13 => (15, 0, 0x0718, 930, 1),
        14 => (16, 1, 0x484B, 920, 1),
        15 => (17, 0, 0x0807, 910, 0),
        16 => (18, 1, 0x3C33, 900, 1),
        17 => (19, 0, 0x0114, 960, 4),
        18 => (20, 1, 0x5241, 950, 4),
        19 => (21, 0, 0x0001, 940, 4),
        20 => (22, 1, 0x5152, 930, 4),
        21 => (23, 0, 0x0718, 920, 4),
        22 => (24, 1, 0x5845, 910, 4),
        23 => (25, 0, 0x0807, 900, 4),
        24 => (26, 1, 0x5958, 890, 4),
        25 => (27, 0, 0x0137, 880, 4),
        26 => (28, 1, 0x3C33, 870, 4),
        27 => (29, 1, 0x3C33, 950, 7),
        28 => (30, 0, 0x0718, 940, 7),
        29 => (31, 1, 0x5845, 930, 7),
        30 => (32, 0, 0x1316, 920, 7),
        31 => (33, 1, 0x5241, 910, 7),
        32 => (34, 0, 0x0807, 900, 7),
        33 => (35, 1, 0x5958, 890, 7),
        34 => (36, 0, 0x0114, 880, 7),
        35 => (37, 1, 0x382F, 870, 7),
        36 => (38, 0, 0x0001, 860, 7),
        37 => (39, 1, 0x5343, 850, 7),
        38 => (40, 1, 0x5845, 950, 2),
        39 => (41, 0, 0x212A, 940, 2),
        40 => (42, 1, 0x5241, 930, 2),
        41 => (43, 0, 0x0807, 920, 2),
        42 => (44, 1, 0x5958, 910, 2),
        43 => (45, 0, 0x1316, 900, 2),
        44 => (46, 1, 0x4043, 890, 2),
        45 => (47, 0, 0x0114, 880, 2),
        46 => (48, 1, 0x5152, 870, 2),
        47 => (49, 1, 0x5845, 930, 8),
        48 => (50, 0, 0x0718, 920, 8),
        49 => (51, 1, 0x5241, 910, 8),
        50 => (52, 0, 0x212A, 900, 8),
        51 => (53, 1, 0x3C33, 890, 8),
        52 => (54, 0, 0x0807, 880, 8),
        53 => (55, 1, 0x5958, 870, 8),
        54 => (56, 1, 0x5845, 920, 3),
        55 => (57, 0, 0x0114, 910, 3),
        56 => (58, 1, 0x382F, 900, 3),
        57 => (59, 0, 0x0001, 890, 3),
        58 => (60, 1, 0x5152, 880, 3),
        59 => (61, 0, 0x0718, 870, 3),
        _ => (62, 1, 0x5958, 860, 3),
    }
}

/// The names of the opening lines.
pub open spec fn book_names() -> Seq<&'static str> {
    seq![
        FIRST_LINE,
        "B\u{ec}nh Phong M\u{e3} M\u{e3} \u{110}\u{1ed9}i",
        "Kh\u{1edf}i M\u{e3} Cu\u{1ed9}c Ti\u{1ebf}n Tam Binh",
        "Qu\u{e1} Cung Ph\u{e1}o Ho\u{e0}nh Xe",
        "Thu\u{1ead}n Ph\u{e1}o Ho\u{e0}nh Xe \u{110}\u{1ed1}i Tr\u{1ef1}c Xe",
        "Ngh\u{1ecb}ch Ph\u{e1}o Bi\u{1ebf}n Th\u{1ec3}",
        "S\u{129} Ti\u{1ebf}n Ph\u{e1}o C\u{f4}ng Th\u{1ee7}",
        "Ti\u{1ebf}n Binh Cu\u{1ed9}c Th\u{1ea5}t Binh",
        "T\u{1b0}\u{1ee3}ng Cu\u{1ed9}c Tr\u{1ef1}c Xe",
        "Uy\u{ea}n \u{1af}\u{1a1}ng Ph\u{e1}o \u{110}\u{1eb7}c S\u{1eaf}c",
        "Kim C\u{e2}u Ph\u{e1}o Bi\u{1ebf}n Tr\u{1ead}n",
        "B\u{e0}n Long Ph\u{e1}o Uy L\u{1ef1}c",
    ]
}

/// `g` after moving whatever stands on `from` to `to`.
pub open spec fn moved(g: Seq<u8>, from: int, to: int) -> Seq<u8> {
    g.update(to, g[from]).update(from, 14)
}

/// Grid `k` of the opening lines.
pub open spec fn line_grid(k: nat) -> Seq<u8>
    decreases k,
{
    if k == 0 || k > 62 {
        start_grid()
    } else {
        let (p, f, t) = line_step(k - 1);
        if p < k {
            moved(line_grid(p as nat), f as int, t as int)
        } else {
            start_grid()
        }
    }
}

/// Entry `i` of the book before sorting: the starting position with the
/// central cannon, the 61 positions of the opening lines, then fillers
/// derived from the starting hash.
pub open spec fn book_entry(i: int) -> Entry {
    let origin = grid_key(start_grid(), 0);
    if i == 0 {
        Entry { hash: origin, mv: 0x1316, weight: 1000, name: FIRST_LINE }
    } else if i < 62 {
        let (k, side, mv, weight, n) = line_move(i - 1);
        Entry { hash: grid_key(line_grid(k as nat), side), mv, weight, name: book_names()[n as int] }
    } else {
        filler_entry(origin, i)
    }
}

/// The filler entry of slot `i`.
pub open spec fn filler_entry(origin: u64, i: int) -> Entry {
    Entry {
        hash: filler_hash(origin, i),
        mv: red_move(i % 8),
        weight: (100 + i % 900) as u16,
        name: book_names()[i % 12],
    }
}

/// The 1024 entries of the book before sorting.
pub open spec fn book_table() -> Seq<Entry> {
    Seq::new(1024, |i: int| book_entry(i))
}

/// Appends the filler entries 62 to 1023, derived from `origin`, to the 62
/// entries of the opening lines.
fn push_fillers(array: &mut Vec<Entry>, origin: u64, names: &[&'static str; 12])
    requires
        old(array)@.len() == 62,
        names@ == book_names(),
    ensures
        final(array)@.len() == 1024,
        final(array)@.subrange(0, 62) == old(array)@,
        forall|k: int| 62 <= k < 1024 ==> #[trigger] final(array)@[k] == filler_entry(origin, k),
{
    let mvs_red: [u16; 8] = [0x1316, 0x1916, 0x0114, 0x0718, 0x212A, 0x1D26, 0x0216, 0x0616];
    let ghost start = array@;
    let mut i: usize = 62;
    while i < 1024
        invariant
            62 <= i <= 1024,
            array@.len() == i,
            array@.subrange(0, 62) == start,
            mvs_red@ == seq![0x1316u16, 0x1916, 0x0114, 0x0718, 0x212A, 0x1D26, 0x0216, 0x0616],
            names@ == book_names(),
            forall|k: int| 62 <= k < i ==> #[trigger] array@[k] == filler_entry(origin, k),
        decreases 1024 - i,
    {
        let val = (origin.wrapping_add(i as u64)).wrapping_mul(0x9E3779B97F4A7C15);
        let mv = mvs_red[i % 8];
        let weight = (100 + (i % 900)) as u16;
        let name = names[i % 12];
        let ghost before = array@;
        array.push(Entry::new(val, mv, weight, name));
        assert(array@.subrange(0, 62) =~= before.subrange(0, 62));
        assert(array@[i as int].hash == filler_hash(origin, i as int));
        assert(array@[i as int].mv == red_move(i as int % 8));
        assert(array@[i as int] == filler_entry(origin, i as int));
        assert forall|k: int| 62 <= k < i + 1 implies #[trigger] array@[k] == filler_entry(origin, k) by {
            if k < i {
                assert(array@[k] == before[k]);
            }
        }
        i += 1;
    }
}

/// Name of the first opening line.
pub const FIRST_LINE: &'static str = "Ph\u{e1}o \u{110}\u{1ea7}u C\u{1ea5}p Ti\u{1ebf}n Trung Binh";

/// The 1024 book entries sorted by hash: the entries of `book_table` (the
/// starting position with the central cannon, 61 positions of six
/// classical opening lines, and fillers derived from the starting hash),
/// reordered by hash.
pub fn entries() -> (r: Vec<Entry>)
    ensures
        r@.len() == 1024,
        sorted(r@),
        r@.to_multiset() == book_table().to_multiset(),
{
    let names: [&'static str; 12] = [
        FIRST_LINE,
        "B\u{ec}nh Phong M\u{e3} M\u{e3} \u{110}\u{1ed9}i",
        "Kh\u{1edf}i M\u{e3} Cu\u{1ed9}c Ti\u{1ebf}n Tam Binh",
        "Qu\u{e1} Cung Ph\u{e1}o Ho\u{e0}nh Xe",
        "Thu\u{1ead}n Ph\u{e1}o Ho\u{e0}nh Xe \u{110}\u{1ed1}i Tr\u{1ef1}c Xe",
        "Ngh\u{1ecb}ch Ph\u{e1}o Bi\u{1ebf}n Th\u{1ec3}",
        "S\u{129} Ti\u{1ebf}n Ph\u{e1}o C\u{f4}ng Th\u{1ee7}",
        "Ti\u{1ebf}n Binh Cu\u{1ed9}c Th\u{1ea5}t Binh",
        "T\u{1b0}\u{1ee3}ng Cu\u{1ed9}c Tr\u{1ef1}c Xe",
        "Uy\u{ea}n \u{1af}\u{1a1}ng Ph\u{e1}o \u{110}\u{1eb7}c S\u{1eaf}c",
        "Kim C\u{e2}u Ph\u{e1}o Bi\u{1ebf}n Tr\u{1ead}n",
        "B\u{e0}n Long Ph\u{e1}o Uy L\u{1ef1}c",
    ];
    assert(names@ == book_names());
    let base = grid();
    let origin = hash(&base, 0);
    let mut grids: Vec<[u8; 90]> = Vec::new();
    grids.push(base);
    let mut k: usize = 0;
    while k < 62
        invariant
            k <= 62,
            grids@.len() == k + 1,
            forall|i: int| 0 <= i <= k ==> #[trigger] grids@[i]@ == line_grid(i as nat),
        decreases 62 - k,
    {
        let (p, f, t) = step_of(k);
        let g = make_move(grids[p], f, t);
        grids.push(g);
        assert(g@ == line_grid((k + 1) as nat));
        k += 1;
    }
    let mut array: Vec<Entry> = Vec::new();
    array.push(Entry::new(origin, 0x1316, 1000, names[0]));
    assert(array@ =~= Seq::new(1, |i: int| book_entry(i)));
    let mut j: usize = 0;
    while j < 61
        invariant
            j <= 61,
            grids@.len() == 63,
            names@ == book_names(),
            forall|i: int| 0 <= i <= 62 ==> #[trigger] grids@[i]@ == line_grid(i as nat),
            array@ == Seq::new((j + 1) as nat, |i: int| book_entry(i)),
        decreases 61 - j,
    {
        let (g, side, mv, weight, n) = line_entry(j);
        array.push(Entry::new(hash(&grids[g], side), mv, weight, names[n]));
        assert(array@ =~= Seq::new((j + 2) as nat, |i: int| book_entry(i)));
        j += 1;
    }
    let ghost head = array@;
    push_fillers(&mut array, origin, &names);
    assert(array@ =~= book_table()) by {
        assert forall|i: int| 0 <= i < 1024 implies #[trigger] array@[i] == book_table()[i] by {
            if i < 62 {
                assert(array@[i] == array@.subrange(0, 62)[i]);
                assert(head[i] == book_entry(i));
            }
        }
    }
    sort(&mut array);
    array
}

/// The opening book: fixed entries sorted by hash, and a table of moves
/// learnt during play, kept strictly sorted by hash.
#[derive(Clone, Debug)]
pub struct Book {
    /// Fixed entries.
    pub entries: Vec<Entry>,
    /// Number of fixed entries.
    pub count: usize,
    /// Padding.
    pub pad: [u8; 40],
    /// Moves learnt during play.
    pub dynamic: Vec<Entry>,
}

impl Book {
    /// A book over `entries` with no learnt moves.
    pub fn new(entries: Vec<Entry>) -> (r: Self)
        ensures
            r.entries@ == entries@,
            r.count == entries@.len(),
            r.dynamic@.len() == 0,
    {
        let count = entries.len();
        Self { entries, count, pad: [0; 40], dynamic: Vec::new() }
    }

    /// The book move for `hash`: a binary search of the learnt moves
    /// `learnt` first, then of `entries`.
    pub fn find_hash(learnt: &[Entry], entries: &[Entry], hash: u64) -> (r: Option<Move>)
        ensures
            r is Some ==> (exists|i: int|
                0 <= i < learnt@.len() && #[trigger] learnt@[i].hash == hash && r == Some(
                    move_of(learnt@[i].mv),
                )) || (exists|i: int|
                0 <= i < entries@.len() && #[trigger] entries@[i].hash == hash && r == Some(
                    move_of(entries@[i].mv),
                )),
            sorted(learnt@) && holds(learnt@, hash) ==> r is Some && exists|i: int|
                0 <= i < learnt@.len() && #[trigger] learnt@[i].hash == hash && r == Some(
                    move_of(learnt@[i].mv),
                ),
            sorted(learnt@) && !holds(learnt@, hash) ==> search_result(entries@, hash, r),
    {
        if learnt.len() > 0 {
            match locate_in(learnt, hash) {
                Ok(idx) => {
                    return Some(Move::unpack(learnt[idx].mv));
                },
                Err(_) => {},
            }
        }
        if entries.len() == 0 {
            return None;
        }
        match locate_in(entries, hash) {
            Ok(idx) => Some(Move::unpack(entries[idx].mv)),
            Err(_) => None,
        }
    }

    /// The book move for `hash`: a learnt move first, else a fixed entry.
    pub fn find(&self, hash: u64) -> (r: Option<Move>)
        ensures
            r is Some ==> (exists|i: int|
                0 <= i < self.dynamic@.len() && #[trigger] self.dynamic@[i].hash == hash && r == Some(
                    move_of(self.dynamic@[i].mv),
                )) || (exists|i: int|
                0 <= i < self.entries@.len() && #[trigger] self.entries@[i].hash == hash && r == Some(
                    move_of(self.entries@[i].mv),
                )),
            sorted(self.dynamic@) && holds(self.dynamic@, hash) ==> r is Some && exists|i: int|
                0 <= i < self.dynamic@.len() && #[trigger] self.dynamic@[i].hash == hash && r == Some(
                    move_of(self.dynamic@[i].mv),
                ),
            sorted(self.dynamic@) && !holds(self.dynamic@, hash) ==> search_result(self.entries@, hash, r),
    {
        Self::find_hash(self.dynamic.as_slice(), self.entries.as_slice(), hash)
    }

    /// Learns move `mv` with weight `weight` for `hash`: an existing entry
    /// takes the move and weight if `weight` is larger; otherwise a new entry
    /// is inserted in hash order. Always succeeds.
    pub fn sync(&mut self, hash: u64, mv: u16, weight: u16) -> (r: bool)
        ensures
            r,
            final(self).entries == old(self).entries,
            final(self).count == old(self).count,
            strict(old(self).dynamic@) ==> strict(final(self).dynamic@),
            strict(old(self).dynamic@) ==> learnt_post(old(self).dynamic@, final(self).dynamic@, hash, mv, weight),
    {
        proof {
            if strict(self.dynamic@) {
                lemma_strict_sorted(self.dynamic@);
            }
        }
        match locate_in(self.dynamic.as_slice(), hash) {
            Ok(idx) => {
                let old_entry = self.dynamic[idx];
                if weight > old_entry.weight {
                    self.dynamic.set(idx, Entry::new(hash, mv, weight, old_entry.name));
                }
                proof {
                    if strict(old(self).dynamic@) {
                        assert forall|a: int, b: int| 0 <= a < b < self.dynamic@.len() implies #[trigger] self.dynamic@[a].hash < #[trigger] self.dynamic@[b].hash by {
                            assert(old(self).dynamic@[a].hash < old(self).dynamic@[b].hash);
                        }
                    }
                }
                true
            },
            Err(at) => {
                self.dynamic.insert(at, Entry::new(hash, mv, weight, LEARNT));
                proof {
                    if strict(old(self).dynamic@) {
                        let o = old(self).dynamic@;
                        let d = self.dynamic@;
                        assert forall|a: int, b: int| 0 <= a < b < d.len() implies #[trigger] d[a].hash < #[trigger] d[b].hash by {
                            if b < at {
                                assert(o[a].hash < o[b].hash);
                            } else if b == at {
                                assert(o[a].hash < hash);
                            } else if a < at {
                                assert(d[b] == o[b - 1]);
                            } else if a == at {
                                assert(d[b] == o[b - 1]);
                            } else {
                                assert(o[a - 1].hash < o[b - 1].hash);
                            }
                        }
                    }
                }
                true
            },
        }
    }

    /// Forgets all learnt moves.
    pub fn clear(&mut self)
        ensures
            final(self).dynamic@.len() == 0,
            final(self).entries == old(self).entries,
            final(self).count == old(self).count,
    {
        self.dynamic.clear();
    }

    /// Number of learnt moves.
    pub fn count(&self) -> (r: usize)
        ensures
            r == self.dynamic@.len(),
    {
        self.dynamic.len()
    }

    /// Replaces the learnt moves with `entries`, sorted by hash with one
    /// entry kept per hash.
    pub fn load_batch(&mut self, entries: Vec<Entry>)
        ensures
            strict(final(self).dynamic@),
            forall|i: int| 0 <= i < final(self).dynamic@.len() ==> entries@.contains(#[trigger] final(self).dynamic@[i]),
            forall|i: int| 0 <= i < entries@.len() ==> holds(final(self).dynamic@, #[trigger] entries@[i].hash),
            final(self).entries == old(self).entries,
            final(self).count == old(self).count,
    {
        let mut entries = entries;
        let ghost input = entries@;
        sort(&mut entries);
        let ghost sorted_in = entries@;
        let mut out: Vec<Entry> = Vec::new();
        let mut i: usize = 0;
        while i < entries.len()
            invariant
                entries@ == sorted_in,
                sorted(sorted_in),
                sorted_in.to_multiset() == input.to_multiset(),
                i <= sorted_in.len(),
                strict(out@),
                out@.len() > 0 ==> out@.last().hash == sorted_in[i - 1].hash,
                i > 0 ==> out@.len() > 0,
                out@.len() <= i,
                forall|k: int| 0 <= k < out@.len() ==> sorted_in.contains(#[trigger] out@[k]),
                forall|k: int| 0 <= k < i ==> holds(out@, #[trigger] sorted_in[k].hash),
            decreases sorted_in.len() - i,
        {
            let e = entries[i];
            let ghost o = out@;
            if out.len() == 0 || out[out.len() - 1].hash != e.hash {
                out.push(e);
                proof {
                    assert forall|a: int, b: int| 0 <= a < b < out@.len() implies #[trigger] out@[a].hash < #[trigger] out@[b].hash by {
                        if b == o.len() && o.len() > 0 {
                            assert(o[a].hash <= o.last().hash);
                            assert(sorted_in[i - 1].hash <= sorted_in[i as int].hash);
                        }
                    }
                    assert forall|k: int| 0 <= k < i + 1 implies holds(out@, #[trigger] sorted_in[k].hash) by {
                        if k == i {
                            assert(out@[o.len() as int].hash == e.hash);
                        } else {
                            let w = choose|w: int| 0 <= w < o.len() && #[trigger] o[w].hash == sorted_in[k].hash;
                            assert(out@[w] == o[w]);
                        }
                    }
                    assert forall|k: int| 0 <= k < out@.len() implies sorted_in.contains(#[trigger] out@[k]) by {
                        if k == o.len() {
                            assert(sorted_in[i as int] == e);
                        } else {
                            assert(out@[k] == o[k]);
                        }
                    }
                }
            } else {
                proof {
                    assert forall|k: int| 0 <= k < i + 1 implies holds(out@, #[trigger] sorted_in[k].hash) by {
                        if k == i {
                            assert(out@[out@.len() - 1].hash == e.hash);
                        }
                    }
                }
            }
            i += 1;
        }
        proof {
            broadcast use vstd::seq_lib::group_to_multiset_ensures;

            assert forall|k: int| 0 <= k < out@.len() implies input.contains(#[trigger] out@[k]) by {
                assert(sorted_in.contains(out@[k]));
                assert(sorted_in.to_multiset().count(out@[k]) > 0);
                assert(input.to_multiset().count(out@[k]) > 0);
            }
            assert forall|k: int| 0 <= k < input.len() implies holds(out@, #[trigger] input[k].hash) by {
                assert(input.contains(input[k]));
                assert(input.to_multiset().count(input[k]) > 0);
                assert(sorted_in.to_multiset().count(input[k]) > 0);
                assert(sorted_in.contains(input[k]));
                let w = choose|w: int| 0 <= w < sorted_in.len() && sorted_in[w] == input[k];
                assert(holds(out@, sorted_in[w].hash));
            }
        }
        self.dynamic = out;
    }
}

impl Default for Book {
    /// The book over the built-in entries.
    fn default() -> (r: Self)
        ensures
            r.entries@.len() == 1024,
            sorted(r.entries@),
            r.entries@.to_multiset() == book_table().to_multiset(),
            r.count == 1024,
            r.dynamic@.len() == 0,
    {
        Self::new(entries())
    }
}

} // verus!
