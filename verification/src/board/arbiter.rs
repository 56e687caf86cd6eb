//! Repetition rulings under the Asian rules: a side that checks (or checks
//! and chases) on every one of its moves through a repetition cycle loses;
//! other repetitions are draws.
use vstd::prelude::*;
use super::moves::Move;
use super::position::Position;

verus! {

/// A ruling on a repeated position.
#[derive(Clone, Copy, Debug, PartialEq, Eq, Structural)]
pub enum Verdict {
    /// No repetition to rule on.
    Normal,
    /// The repetition is a draw.
    Draw,
    /// Red repeated by perpetual check or chase and loses.
    RedLoss,
    /// Black repeated by perpetual check or chase and loses.
    BlackLoss,
}

/// One move of the game history.
#[derive(Clone, Copy, Debug, Default)]
pub struct Record {
    /// Hash of the position the move was played in.
    pub hash: u64,
    /// The move.
    pub step: Move,
    /// Whether the move gave check.
    pub check: bool,
    /// Whether the move chased a piece.
    pub chase: bool,
    /// Side that moved (0: Red, 1: Black).
    pub side: u8,
}

/// Number of records among the first `n` whose hash is `t`.
pub open spec fn hits(h: Seq<Record>, n: int, t: u64) -> nat
    decreases n,
{
    if n <= 0 {
        0
    } else {
        hits(h, n - 1, t) + if h[n - 1].hash == t {
            1nat
        } else {
            0nat
        }
    }
}

/// Index of the last record among the first `n` whose hash is `t`, or -1.
pub open spec fn latest(h: Seq<Record>, n: int, t: u64) -> int
    decreases n,
{
    if n <= 0 {
        -1
    } else if h[n - 1].hash == t {
        n - 1
    } else {
        latest(h, n - 1, t)
    }
}

/// Moves of one side (`red`: Red, else Black) among records `lo..hi`;
/// `kind` 0 counts all its moves, 1 its checks, 2 its chases.
pub open spec fn side_count(h: Seq<Record>, lo: int, hi: int, red: bool, kind: int) -> nat
    decreases hi - lo,
{
    if hi <= lo {
        0
    } else {
        let r = h[hi - 1];
        side_count(h, lo, hi - 1, red, kind) + if (r.side == 0) == red && (kind == 0 || (kind
            == 1 && r.check) || (kind == 2 && r.chase)) {
            1nat
        } else {
            0nat
        }
    }
}

/// The ruling on position hash `t` given the first `n` records of `h`: the
/// cycle runs from the last record of `t` to the end; it must repeat `t` at
/// least twice and span 2 to 32 moves. A side that checks on all its moves
/// of the cycle while the other does not loses; failing that, the same with
/// checks and chases together; otherwise the repetition is a draw.
pub open spec fn judge_spec(h: Seq<Record>, n: int, t: u64) -> Verdict {
    if n < 4 || hits(h, n, t) < 2 {
        Verdict::Normal
    } else {
        let start = latest(h, n, t);
        let cycle = n - start;
        if cycle < 2 || cycle > 32 {
            Verdict::Normal
        } else {
            let rm = side_count(h, start, n, true, 0);
            let rc = side_count(h, start, n, true, 1);
            let rh = side_count(h, start, n, true, 2);
            let bm = side_count(h, start, n, false, 0);
            let bc = side_count(h, start, n, false, 1);
            let bh = side_count(h, start, n, false, 2);
            let red_check = rm > 0 && rc == rm;
            let black_check = bm > 0 && bc == bm;
            let red_chase = rm > 0 && rc + rh == rm;
            let black_chase = bm > 0 && bc + bh == bm;
            if red_check && !black_check {
                Verdict::RedLoss
            } else if black_check && !red_check {
                Verdict::BlackLoss
            } else if red_chase && !black_chase {
                Verdict::RedLoss
            } else if black_chase && !red_chase {
                Verdict::BlackLoss
            } else {
                Verdict::Draw
            }
        }
    }
}

/// The score of a ruling for the side `side` searching at `ply`: none for
/// no ruling, 0 for a draw, `-29000 + ply` for the side that loses and
/// `29000 - ply` for its opponent (with `ply` taken as an `i32`).
pub open spec fn score_spec(v: Verdict, side: u8, ply: usize) -> Option<i32> {
    let p = ply as i32;
    match v {
        Verdict::Normal => None,
        Verdict::Draw => Some(0),
        Verdict::RedLoss => if side == 0 {
            Some((-29000 + p) as i32)
        } else {
            Some((29000 - p) as i32)
        },
        Verdict::BlackLoss => if side == 1 {
            Some((-29000 + p) as i32)
        } else {
            Some((29000 - p) as i32)
        },
    }
}

/// The score of a ruling fits in an `i32`.
pub open spec fn score_fits(v: Verdict, side: u8, ply: usize) -> bool {
    let p = ply as i32;
    let loser = (v == Verdict::RedLoss && side == 0) || (v == Verdict::BlackLoss && side == 1);
    let winner = (v == Verdict::RedLoss && side != 0) || (v == Verdict::BlackLoss && side != 1);
    &&& loser ==> -2147483648 <= -29000 + p
    &&& winner ==> 29000 - p <= 2147483647
}

/// Game history of up to 256 moves, with repetition rulings.
#[derive(Clone, Debug)]
pub struct Arbiter {
    /// Records of the moves played.
    pub history: [Record; 256],
    /// Number of records in use.
    pub count: usize,
    /// Padding.
    pub pad: [u8; 40],
}

/// Taking back a move recorded last leaves the history as it was.
pub proof fn lemma_pop_undoes_push(history: Seq<Record>, record: Record)
    ensures
        history.push(record).drop_last() == history,
{
    assert(history.push(record).drop_last() =~= history);
}

impl Arbiter {
    /// The records in use.
    pub open spec fn records(&self) -> Seq<Record> {
        self.history@.subrange(0, self.count as int)
    }

    /// An empty history.
    pub fn new() -> (r: Self)
        ensures
            r.count == 0,
            forall|i: int| 0 <= i < 256 ==> {
                let rec = #[trigger] r.history[i];
                rec.hash == 0 && rec.step.from == 0 && rec.step.to == 0 && !rec.check && !rec.chase
                    && rec.side == 0
            },
    {
        Self {
            history: [Record { hash: 0, step: Move::none(), check: false, chase: false, side: 0 }; 256],
            count: 0,
            pad: [0u8; 40],
        }
    }

    /// Forgets the whole history.
    pub fn reset(&mut self)
        ensures
            final(self).count == 0,
            final(self).history == old(self).history,
    {
        self.count = 0;
    }

    /// Records a move played in `pos`; a full history is left as it is.
    pub fn push(&mut self, pos: &Position, step: Move, is_check: bool, is_chase: bool)
        requires
            old(self).count <= 256,
        ensures
            final(self).count <= 256,
            old(self).count < 256 ==> final(self).records() == old(self).records().push(
                Record { hash: pos.hash, step, check: is_check, chase: is_chase, side: pos.side },
            ),
            old(self).count == 256 ==> *final(self) == *old(self),
    {
        if self.count < 256 {
            let c = self.count;
            self.history[c] = Record {
                hash: pos.hash,
                step,
                check: is_check,
                chase: is_chase,
                side: pos.side,
            };
            self.count = c + 1;
            assert(self.records() =~= old(self).records().push(
                Record { hash: pos.hash, step, check: is_check, chase: is_chase, side: pos.side },
            ));
        }
    }

    /// Takes back the last record, if any.
    pub fn pop(&mut self)
        requires
            old(self).count <= 256,
        ensures
            final(self).count <= 256,
            old(self).count > 0 ==> final(self).records() == old(self).records().drop_last(),
            old(self).count == 0 ==> *final(self) == *old(self),
    {
        if self.count > 0 {
            self.count -= 1;
            assert(self.records() =~= old(self).records().drop_last());
        }
    }

    /// The ruling on a move that would repeat the position `target_hash`.
    pub fn judge(&self, target_hash: u64, current_side: u8) -> (r: Verdict)
        requires
            self.count <= 256,
        ensures
            r == judge_spec(self.history@, self.count as int, target_hash),
    {
        let n = self.count;
        if n < 4 {
            return Verdict::Normal;
        }
        let mut repeat: u32 = 0;
        let mut first: Option<usize> = None;
        let mut i: usize = 0;
        while i < n
            invariant
                n == self.count,
                n <= 256,
                i <= n,
                repeat == hits(self.history@, i as int, target_hash),
                repeat <= i,
                first == (if latest(self.history@, i as int, target_hash) >= 0 {
                    Some(latest(self.history@, i as int, target_hash) as usize)
                } else {
                    None::<usize>
                }),
                latest(self.history@, i as int, target_hash) < i,
            decreases n - i,
        {
            if self.history[i].hash == target_hash {
                repeat += 1;
                first = Some(i);
            }
            i += 1;
        }
        if repeat < 2 {
            return Verdict::Normal;
        }
        proof {
            lemma_hits_latest(self.history@, n as int, target_hash);
        }
        let start = match first {
            Some(s) => s,
            None => {
                return Verdict::Normal;
            },
        };
        let cycle = n - start;
        if cycle < 2 || cycle > 32 {
            return Verdict::Normal;
        }
        let ghost h = self.history@;
        let mut rm: u32 = 0;
        let mut rc: u32 = 0;
        let mut rh: u32 = 0;
        let mut bm: u32 = 0;
        let mut bc: u32 = 0;
        let mut bh: u32 = 0;
        let mut k = start;
        while k < n
            invariant
                h == self.history@,
                n == self.count,
                n <= 256,
                start <= k <= n,
                rm == side_count(h, start as int, k as int, true, 0),
                rc == side_count(h, start as int, k as int, true, 1),
                rh == side_count(h, start as int, k as int, true, 2),
                bm == side_count(h, start as int, k as int, false, 0),
                bc == side_count(h, start as int, k as int, false, 1),
                bh == side_count(h, start as int, k as int, false, 2),
                rm + bm == k - start,
                rc <= rm && rh <= rm && bc <= bm && bh <= bm,
            decreases n - k,
        {
            let rec = self.history[k];
            if rec.side == 0 {
                rm += 1;
                if rec.check {
                    rc += 1;
                }
                if rec.chase {
                    rh += 1;
                }
            } else {
                bm += 1;
                if rec.check {
                    bc += 1;
                }
                if rec.chase {
                    bh += 1;
                }
            }
            k += 1;
        }
        let red_check = rm > 0 && rc == rm;
        let black_check = bm > 0 && bc == bm;
        if red_check && !black_check {
            return Verdict::RedLoss;
        }
        if black_check && !red_check {
            return Verdict::BlackLoss;
        }
        let red_chase = rm > 0 && rc + rh == rm;
        let black_chase = bm > 0 && bc + bh == bm;
        if red_chase && !black_chase {
            return Verdict::RedLoss;
        }
        if black_chase && !red_chase {
            return Verdict::BlackLoss;
        }
        Verdict::Draw
    }

    /// The search score of the ruling on `target_hash` for `current_side`
    /// at depth `ply`.
    pub fn score(&self, target_hash: u64, current_side: u8, ply: usize) -> (r: Option<i32>)
        requires
            self.count <= 256,
            score_fits(judge_spec(self.history@, self.count as int, target_hash), current_side, ply),
        ensures
            r == score_spec(judge_spec(self.history@, self.count as int, target_hash), current_side, ply),
    {
        let p = ply as i32;
        match self.judge(target_hash, current_side) {
            Verdict::Normal => None,
            Verdict::Draw => Some(0),
            Verdict::RedLoss => {
                if current_side == 0 {
                    Some(-29000 + p)
                } else {
                    Some(29000 - p)
                }
            },
            Verdict::BlackLoss => {
                if current_side == 1 {
                    Some(-29000 + p)
                } else {
                    Some(29000 - p)
                }
            },
        }
    }
}

proof fn lemma_hits_latest(h: Seq<Record>, n: int, t: u64)
    ensures
        hits(h, n, t) > 0 ==> latest(h, n, t) >= 0,
    decreases n,
{
    if n > 0 {
        lemma_hits_latest(h, n - 1, t);
    }
}

/// `h` with the sides swapped: every Red move recorded as Black's and
/// every Black move as Red's.
pub open spec fn swap_sides(h: Seq<Record>) -> Seq<Record> {
    Seq::new(h.len(), |i: int| Record { side: if h[i].side == 0 { 1u8 } else { 0u8 }, ..h[i] })
}

/// A ruling with the sides swapped.
pub open spec fn swap_verdict(v: Verdict) -> Verdict {
    match v {
        Verdict::RedLoss => Verdict::BlackLoss,
        Verdict::BlackLoss => Verdict::RedLoss,
        other => other,
    }
}

proof fn lemma_swap_counts(h: Seq<Record>, lo: int, hi: int, red: bool, kind: int)
    requires
        0 <= lo,
        hi <= h.len(),
    ensures
        side_count(swap_sides(h), lo, hi, red, kind) == side_count(h, lo, hi, !red, kind),
    decreases hi - lo,
{
    if hi > lo {
        lemma_swap_counts(h, lo, hi - 1, red, kind);
    }
}

proof fn lemma_swap_hits(h: Seq<Record>, n: int, t: u64)
    requires
        n <= h.len(),
    ensures
        hits(swap_sides(h), n, t) == hits(h, n, t),
        latest(swap_sides(h), n, t) == latest(h, n, t),
    decreases n,
{
    if n > 0 {
        lemma_swap_hits(h, n - 1, t);
    }
}

/// The rulings do not favour a side: swapping the sides of every move of a
/// history swaps who loses (a Red loss becomes a Black loss and the other
/// way round) and leaves draws and no-rulings as they are.
pub proof fn lemma_judge_symmetric(h: Seq<Record>, n: int, t: u64)
    requires
        0 <= n <= h.len(),
    ensures
        judge_spec(swap_sides(h), n, t) == swap_verdict(judge_spec(h, n, t)),
{
    lemma_swap_hits(h, n, t);
    lemma_hits_latest(h, n, t);
    let start = latest(h, n, t);
    if n >= 4 && hits(h, n, t) >= 2 {
        assert(start >= 0);
        lemma_swap_counts(h, start, n, true, 0);
        lemma_swap_counts(h, start, n, true, 1);
        lemma_swap_counts(h, start, n, true, 2);
        lemma_swap_counts(h, start, n, false, 0);
        lemma_swap_counts(h, start, n, false, 1);
        lemma_swap_counts(h, start, n, false, 2);
    }
}

proof fn lemma_hits_step(h: Seq<Record>, k: int, m: int, t: u64)
    requires
        0 <= k <= m,
    ensures
        hits(h, m, t) >= hits(h, k, t),
    decreases m - k,
{
    if m > k {
        lemma_hits_step(h, k, m - 1, t);
    }
}

proof fn lemma_latest_at(h: Seq<Record>, n: int, t: u64, s: int)
    requires
        0 <= s < n,
        h[s].hash == t,
        forall|k: int| s < k < n ==> #[trigger] h[k].hash != t,
    ensures
        latest(h, n, t) == s,
    decreases n,
{
    if n - 1 > s {
        lemma_latest_at(h, n - 1, t, s);
    }
}

/// Counting the moves of one side among `lo..hi`: its checks are no more
/// than its moves, as many exactly when every one of its moves checks, and
/// it has moves exactly when one of the records is its.
proof fn lemma_side_all(h: Seq<Record>, lo: int, hi: int, red: bool)
    requires
        0 <= lo,
        hi <= h.len(),
    ensures
        side_count(h, lo, hi, red, 1) <= side_count(h, lo, hi, red, 0),
        (side_count(h, lo, hi, red, 1) == side_count(h, lo, hi, red, 0)) <==> (forall|k: int|
            lo <= k < hi && (#[trigger] h[k].side == 0) == red ==> h[k].check),
        (side_count(h, lo, hi, red, 0) > 0) <==> (exists|k: int| lo <= k < hi && (#[trigger] h[k].side == 0) == red),
    decreases hi - lo,
{
    if hi > lo {
        lemma_side_all(h, lo, hi - 1, red);
        let r = h[hi - 1];
        if (r.side == 0) == red && !r.check {
            assert(!(forall|k: int| lo <= k < hi && (#[trigger] h[k].side == 0) == red ==> h[k].check));
        }
        if (r.side == 0) == red {
            assert(exists|k: int| lo <= k < hi && (#[trigger] h[k].side == 0) == red);
        }
    }
}

/// Perpetual check loses: when position `t` has come up twice and the
/// cycle since its last appearance spans 2 to 32 moves, a side that gave
/// check with every one of its moves in the cycle, while the other side
/// did not (or did not move), loses the game (`loser_red` picks the side).
pub proof fn lemma_perpetual_check_loses(
    h: Seq<Record>,
    n: int,
    t: u64,
    i: int,
    s: int,
    loser_red: bool,
)
    requires
        4 <= n <= h.len(),
        0 <= i < s < n,
        h[i].hash == t,
        h[s].hash == t,
        forall|k: int| s < k < n ==> #[trigger] h[k].hash != t,
        2 <= n - s <= 32,
        exists|k: int| s <= k < n && (#[trigger] h[k].side == 0) == loser_red,
        forall|k: int| s <= k < n && (#[trigger] h[k].side == 0) == loser_red ==> h[k].check,
        (exists|k: int| s <= k < n && (#[trigger] h[k].side == 0) != loser_red && !h[k].check)
            || (forall|k: int| s <= k < n ==> (#[trigger] h[k].side == 0) == loser_red),
    ensures
        judge_spec(h, n, t) == (if loser_red {
            Verdict::RedLoss
        } else {
            Verdict::BlackLoss
        }),
{
    lemma_hits_step(h, 0, i, t);
    lemma_hits_step(h, i + 1, s, t);
    lemma_hits_step(h, s + 1, n, t);
    assert(hits(h, n, t) >= 2);
    lemma_latest_at(h, n, t, s);
    lemma_side_all(h, s, n, true);
    lemma_side_all(h, s, n, false);
    if exists|k: int| s <= k < n && (#[trigger] h[k].side == 0) != loser_red && !h[k].check {
        let k = choose|k: int| s <= k < n && (#[trigger] h[k].side == 0) != loser_red && !h[k].check;
        assert(!(forall|j: int| s <= j < n && (#[trigger] h[j].side == 0) == !loser_red ==> h[j].check));
    } else {
        assert(!(exists|j: int| s <= j < n && (#[trigger] h[j].side == 0) == !loser_red));
    }
}

/// Counting checks and chases of one side among `lo..hi` when no move
/// both checks and chases: together they make up all its moves exactly
/// when each of its moves checks or chases.
proof fn lemma_side_either(h: Seq<Record>, lo: int, hi: int, red: bool)
    requires
        0 <= lo,
        hi <= h.len(),
        forall|k: int| lo <= k < hi ==> !(#[trigger] h[k].check && h[k].chase),
    ensures
        side_count(h, lo, hi, red, 1) + side_count(h, lo, hi, red, 2) <= side_count(h, lo, hi, red, 0),
        (side_count(h, lo, hi, red, 1) + side_count(h, lo, hi, red, 2) == side_count(h, lo, hi, red, 0))
            <==> (forall|k: int| lo <= k < hi && (#[trigger] h[k].side == 0) == red ==> h[k].check || h[k].chase),
    decreases hi - lo,
{
    if hi > lo {
        lemma_side_either(h, lo, hi - 1, red);
        let r = h[hi - 1];
        if (r.side == 0) == red && !r.check && !r.chase {
            assert(!(forall|k: int| lo <= k < hi && (#[trigger] h[k].side == 0) == red ==> h[k].check || h[k].chase));
        }
    }
}

/// Perpetual chase loses: in a cycle (as for perpetual check) where no move
/// both checks and chases, neither side checks with all its moves, a side
/// that chases with every one of its moves loses when the other side made
/// a move that neither checked nor chased (or did not move).
pub proof fn lemma_perpetual_chase_loses(
    h: Seq<Record>,
    n: int,
    t: u64,
    i: int,
    s: int,
    loser_red: bool,
)
    requires
        4 <= n <= h.len(),
        0 <= i < s < n,
        h[i].hash == t,
        h[s].hash == t,
        forall|k: int| s < k < n ==> #[trigger] h[k].hash != t,
        2 <= n - s <= 32,
        forall|k: int| s <= k < n ==> !(#[trigger] h[k].check && h[k].chase),
        exists|k: int| s <= k < n && (#[trigger] h[k].side == 0) == loser_red,
        forall|k: int| s <= k < n && (#[trigger] h[k].side == 0) == loser_red ==> h[k].chase,
        (exists|k: int| s <= k < n && (#[trigger] h[k].side == 0) != loser_red && !h[k].check
            && !h[k].chase) || (forall|k: int| s <= k < n ==> (#[trigger] h[k].side == 0) == loser_red),
    ensures
        judge_spec(h, n, t) == (if loser_red {
            Verdict::RedLoss
        } else {
            Verdict::BlackLoss
        }),
{
    lemma_hits_step(h, 0, i, t);
    lemma_hits_step(h, i + 1, s, t);
    lemma_hits_step(h, s + 1, n, t);
    assert(hits(h, n, t) >= 2);
    lemma_latest_at(h, n, t, s);
    lemma_side_all(h, s, n, true);
    lemma_side_all(h, s, n, false);
    lemma_side_either(h, s, n, true);
    lemma_side_either(h, s, n, false);
    let w = choose|k: int| s <= k < n && (#[trigger] h[k].side == 0) == loser_red;
    assert(h[w].chase && !h[w].check);
    assert(!(forall|j: int| s <= j < n && (#[trigger] h[j].side == 0) == loser_red ==> h[j].check));
    if exists|k: int| s <= k < n && (#[trigger] h[k].side == 0) != loser_red && !h[k].check && !h[k].chase {
        let k = choose|k: int| s <= k < n && (#[trigger] h[k].side == 0) != loser_red && !h[k].check && !h[k].chase;
        assert(!(forall|j: int| s <= j < n && (#[trigger] h[j].side == 0) == !loser_red ==> h[j].check));
        assert(!(forall|j: int| s <= j < n && (#[trigger] h[j].side == 0) == !loser_red ==> h[j].check
            || h[j].chase));
    } else {
        assert(!(exists|j: int| s <= j < n && (#[trigger] h[j].side == 0) == !loser_red));
    }
}

/// Repetitions that nobody forces are draws: in a cycle (as for perpetual
/// check) where no move both checks and chases, the ruling is a draw when
/// both sides moved and checked with every move, and when each side made
/// a move that neither checked nor chased.
pub proof fn lemma_unforced_repetition_draws(h: Seq<Record>, n: int, t: u64, i: int, s: int)
    requires
        4 <= n <= h.len(),
        0 <= i < s < n,
        h[i].hash == t,
        h[s].hash == t,
        forall|k: int| s < k < n ==> #[trigger] h[k].hash != t,
        2 <= n - s <= 32,
        forall|k: int| s <= k < n ==> !(#[trigger] h[k].check && h[k].chase),
    ensures
        (exists|k: int| s <= k < n && #[trigger] h[k].side == 0) && (exists|k: int| s <= k < n
            && #[trigger] h[k].side != 0) && (forall|k: int| s <= k < n ==> #[trigger] h[k].check)
            ==> judge_spec(h, n, t) == Verdict::Draw,
        (exists|k: int| s <= k < n && #[trigger] h[k].side == 0 && !h[k].check && !h[k].chase)
            && (exists|k: int| s <= k < n && #[trigger] h[k].side != 0 && !h[k].check && !h[k].chase)
            ==> judge_spec(h, n, t) == Verdict::Draw,
{
    lemma_hits_step(h, 0, i, t);
    lemma_hits_step(h, i + 1, s, t);
    lemma_hits_step(h, s + 1, n, t);
    lemma_latest_at(h, n, t, s);
    lemma_side_all(h, s, n, true);
    lemma_side_all(h, s, n, false);
    lemma_side_either(h, s, n, true);
    lemma_side_either(h, s, n, false);
    if (exists|k: int| s <= k < n && #[trigger] h[k].side == 0) && (exists|k: int| s <= k < n
        && #[trigger] h[k].side != 0) && (forall|k: int| s <= k < n ==> #[trigger] h[k].check) {
        let a = choose|k: int| s <= k < n && #[trigger] h[k].side == 0;
        let b = choose|k: int| s <= k < n && #[trigger] h[k].side != 0;
        assert((h[a].side == 0) == true);
        assert((h[b].side == 0) == false);
    }
    if (exists|k: int| s <= k < n && #[trigger] h[k].side == 0 && !h[k].check && !h[k].chase)
        && (exists|k: int| s <= k < n && #[trigger] h[k].side != 0 && !h[k].check && !h[k].chase) {
        let a = choose|k: int| s <= k < n && #[trigger] h[k].side == 0 && !h[k].check && !h[k].chase;
        let b = choose|k: int| s <= k < n && #[trigger] h[k].side != 0 && !h[k].check && !h[k].chase;
        assert((h[a].side == 0) == true);
        assert((h[b].side == 0) == false);
    }
}

} // verus!
