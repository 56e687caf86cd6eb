//! Endgame knowledge: a table of scores learnt for given hashes, and rules
//! that score well-known material balances as won, drawn or lost.
use vstd::prelude::*;
use crate::board::position::{Position, tally};

verus! {

/// Score of a won endgame.
pub const WIN: i32 = 15000;
/// Score of a drawn endgame.
pub const DRAW: i32 = 0;
/// Score of a lost endgame.
pub const LOSS: i32 = -15000;

/// Material of the side to move (`hero`) and of its opponent (`enemy`), per
/// kind (king, advisor, bishop, knight, rook, cannon, pawn), and the hero's
/// pawns across the river.
#[derive(Clone, Copy, Debug, Default, PartialEq, Eq)]
pub struct Count {
    /// Hero's pieces per kind.
    pub hero: [u8; 7],
    /// Enemy's pieces per kind.
    pub enemy: [u8; 7],
    /// Hero's pawns across the river.
    pub river: u8,
    /// Padding.
    pub pad: [u8; 1],
}

/// Pawns of side `side` across the river: Red pawns (code 6) on squares
/// 45..89, Black pawns (code 13) on squares 0..44.
pub open spec fn river_spec(g: Seq<u8>, side: u8) -> nat {
    if side == 0 {
        (tally(g, 6, 90) - tally(g, 6, 45)) as nat
    } else {
        tally(g, 13, 45)
    }
}

proof fn lemma_tally_step(g: Seq<u8>, p: u8, n: nat)
    ensures
        tally(g, p, n + 1) == tally(g, p, n) + if g[n as int] == p {
            1nat
        } else {
            0nat
        },
{
}

proof fn lemma_tally_mono(g: Seq<u8>, p: u8, k: nat, n: nat)
    requires
        k <= n,
    ensures
        tally(g, p, k) <= tally(g, p, n),
        tally(g, p, n) - tally(g, p, k) <= n - k,
    decreases n,
{
    if n > k {
        lemma_tally_mono(g, p, k, (n - 1) as nat);
    }
}

/// Number of pawns of side `side` (0: Red, else Black) across the river.
pub fn river(pos: &Position, side: u8) -> (r: u8)
    ensures
        r == river_spec(pos.grid@, side),
{
    let mut total: u8 = 0;
    if side == 0 {
        let mut sq: usize = 45;
        proof {
            lemma_tally_mono(pos.grid@, 6, 45, 45);
        }
        while sq < 90
            invariant
                45 <= sq <= 90,
                total == tally(pos.grid@, 6, sq as nat) - tally(pos.grid@, 6, 45),
                total <= sq - 45,
            decreases 90 - sq,
        {
            proof {
                lemma_tally_step(pos.grid@, 6, sq as nat);
                lemma_tally_mono(pos.grid@, 6, 45, sq as nat);
            }
            if pos.grid[sq] == 6 {
                total += 1;
            }
            sq += 1;
        }
    } else {
        let mut sq: usize = 0;
        while sq <= 44
            invariant
                sq <= 45,
                total == tally(pos.grid@, 13, sq as nat),
                total <= sq,
            decreases 45 - sq,
        {
            proof {
                lemma_tally_step(pos.grid@, 13, sq as nat);
            }
            if pos.grid[sq] == 13 {
                total += 1;
            }
            sq += 1;
        }
    }
    total
}

/// The material count of `pos` from the view of the side to move.
pub open spec fn count_of(pos: Position) -> Count {
    let side = pos.side as int;
    let foe = 1 - side;
    Count {
        hero: [
            pos.counts[side * 7],
            pos.counts[side * 7 + 1],
            pos.counts[side * 7 + 2],
            pos.counts[side * 7 + 3],
            pos.counts[side * 7 + 4],
            pos.counts[side * 7 + 5],
            pos.counts[side * 7 + 6],
        ],
        enemy: [
            pos.counts[foe * 7],
            pos.counts[foe * 7 + 1],
            pos.counts[foe * 7 + 2],
            pos.counts[foe * 7 + 3],
            pos.counts[foe * 7 + 4],
            pos.counts[foe * 7 + 5],
            pos.counts[foe * 7 + 6],
        ],
        river: river_spec(pos.grid@, pos.side) as u8,
        pad: [0],
    }
}

impl Count {
    /// Counts the material of `pos` from the view of the side to move.
    pub fn parse(pos: &Position) -> (r: Self)
        requires
            pos.side <= 1,
        ensures
            forall|i: int| 0 <= i < 7 ==> #[trigger] r.hero[i] == pos.counts[pos.side * 7 + i],
            forall|i: int| 0 <= i < 7 ==> #[trigger] r.enemy[i] == pos.counts[(1 - pos.side) * 7 + i],
            r.river == river_spec(pos.grid@, pos.side),
            r.pad[0] == 0,
    {
        let side = pos.side as usize;
        let foe = (1 - pos.side) as usize;
        let mut hero = [0u8; 7];
        let mut enemy = [0u8; 7];
        let mut i: usize = 0;
        while i < 7
            invariant
                i <= 7,
                side == pos.side,
                foe == 1 - pos.side,
                side <= 1,
                forall|j: int| 0 <= j < i ==> #[trigger] hero[j] == pos.counts[side * 7 + j],
                forall|j: int| 0 <= j < i ==> #[trigger] enemy[j] == pos.counts[foe * 7 + j],
            decreases 7 - i,
        {
            hero[i] = pos.counts[side * 7 + i];
            enemy[i] = pos.counts[foe * 7 + i];
            i += 1;
        }
        let val = river(pos, pos.side);
        Self { hero, enemy, river: val, pad: [0; 1] }
    }
}

/// An endgame rule: its code, its score and its name.
#[derive(Clone, Copy, Debug, PartialEq, Eq)]
pub struct Rule {
    /// Rule number.
    pub code: u16,
    /// Score the rule gives.
    pub score: i32,
    /// Name of the rule.
    pub name: &'static str,
    /// Padding.
    pub pad: [u8; 8],
}

impl Rule {
    /// A rule with the given code, score and name.
    pub fn new(code: u16, score: i32, name: &'static str) -> (r: Self)
        ensures
            r.code == code && r.score == score && r.name == name,
            forall|i: int| 0 <= i < 8 ==> #[trigger] r.pad[i] == 0,
    {
        Self { code, score, name, pad: [0; 8] }
    }
}

/// The score that the material rules give to hero counts `h`, enemy counts
/// `e`, hero pawns across the river `river` and enemy pawns across the river
/// `reach`; the rules are tried in order and the first that applies wins.
pub open spec fn rules(h: [u8; 7], e: [u8; 7], river: int, reach: int) -> Option<i32> {
    let attack = h[3] + h[4] + h[5] + h[6];
    let danger = e[3] + e[4] + e[5] + e[6];
    if attack == 0 && danger == 0 {
        Some(DRAW)
    } else if h[3] == 1 && attack == 1 && danger == 0 && e[2] >= 1 {
        Some(DRAW)
    } else if h[3] == 1 && attack == 1 && danger == 0 && e[1] <= 1 && e[2] == 0 {
        Some(WIN)
    } else if e[3] == 1 && danger == 1 && attack == 0 && h[2] >= 1 {
        Some(DRAW)
    } else if e[3] == 1 && danger == 1 && attack == 0 && h[1] <= 1 && h[2] == 0 {
        Some(LOSS)
    } else if h[5] == 1 && attack == 1 && danger == 0 && (e[1] >= 1 || e[2] >= 1) {
        Some(DRAW)
    } else if e[5] == 1 && danger == 1 && attack == 0 && (h[1] >= 1 || h[2] >= 1) {
        Some(DRAW)
    } else if h[5] == 1 && river == 0 && attack == h[5] + h[6] && danger == 0 {
        Some(DRAW)
    } else if e[5] == 1 && reach == 0 && danger == e[5] + e[6] && attack == 0 {
        Some(DRAW)
    } else if h[5] == 1 && river >= 1 && attack == h[5] + h[6] && danger == 0 && e[1] == 2 && e[2]
        == 2 {
        Some(DRAW)
    } else if h[5] == 1 && river >= 1 && attack == h[5] + h[6] && danger == 0 && (e[1] < 2 || e[2]
        < 2) {
        Some(WIN)
    } else if e[5] == 1 && reach >= 1 && danger == e[5] + e[6] && attack == 0 && h[1] == 2 && h[2]
        == 2 {
        Some(DRAW)
    } else if e[5] == 1 && reach >= 1 && danger == e[5] + e[6] && attack == 0 && (h[1] < 2 || h[2]
        < 2) {
        Some(LOSS)
    } else if h[4] == 1 && h[3] == 1 && attack == 2 && e[4] == 1 && danger == 1 {
        Some(WIN)
    } else if e[4] == 1 && e[3] == 1 && danger == 2 && h[4] == 1 && attack == 1 {
        Some(LOSS)
    } else if h[5] == 2 && attack == 2 && danger == 0 && (e[1] < 2 || e[2] < 2) {
        Some(WIN)
    } else if e[5] == 2 && danger == 2 && attack == 0 && (h[1] < 2 || h[2] < 2) {
        Some(LOSS)
    } else if h[4] == 1 && attack == 1 && danger == 0 && (e[1] < 2 || e[2] < 2) {
        Some(WIN)
    } else if e[4] == 1 && danger == 1 && attack == 0 && (h[1] < 2 || h[2] < 2) {
        Some(LOSS)
    } else if h[3] == 2 && attack == 2 && danger == 0 {
        Some(WIN)
    } else if e[3] == 2 && danger == 2 && attack == 0 {
        Some(LOSS)
    } else if h[4] == 1 && h[5] == 1 && attack == 2 && e[4] == 1 && danger == 1 {
        Some(WIN)
    } else if e[4] == 1 && e[5] == 1 && danger == 2 && h[4] == 1 && attack == 1 {
        Some(LOSS)
    } else {
        None
    }
}

/// A score seen from the other side.
pub open spec fn negated(o: Option<i32>) -> Option<i32> {
    match o {
        Some(v) => Some((-v) as i32),
        None => None,
    }
}

/// The rules do not favour the side to move: scoring the same material from
/// the opponent's view (hero and enemy counts swapped, and their pawns
/// across the river) gives the opposite score, and no score where there was
/// none.
pub proof fn lemma_rules_swap(h: [u8; 7], e: [u8; 7], river: int, reach: int)
    ensures
        rules(e, h, reach, river) == negated(rules(h, e, river, reach)),
{
}

/// The known material endings, each on its own, for the side to move
/// (`h`: its pieces per kind, king, advisor, elephant, knight, rook,
/// cannon, pawn; `e`: the opponent's; `river`/`reach`: their pawns across
/// the river):
/// - no attacking piece (knight, rook, cannon, pawn) on either side: draw;
/// - a lone knight against no attacker: a draw if the defence has an
///   elephant, a win if it has no elephant and at most one advisor;
/// - a lone cannon against no attacker but an advisor or an elephant: draw;
/// - a cannon with pawns none of which has crossed, against no attacker:
///   draw; with a crossed pawn, a win unless the defence is complete (two
///   advisors and two elephants), a draw if it is;
/// - rook and knight against a lone rook: win;
/// - rook and cannon against a lone rook: win;
/// - two cannons against no attacker and an incomplete defence: win;
/// - a lone rook against no attacker and an incomplete defence: win;
/// - two knights against no attacker: win.
/// The same endings with the sides swapped score the opposite.
pub proof fn lemma_known_endings(h: [u8; 7], e: [u8; 7], river: int, reach: int)
    ensures
        h[3] + h[4] + h[5] + h[6] == 0 && e[3] + e[4] + e[5] + e[6] == 0 ==> rules(h, e, river, reach)
            == Some(DRAW),
        h[3] == 1 && h[4] + h[5] + h[6] == 0 && e[3] + e[4] + e[5] + e[6] == 0 && e[2] >= 1
            ==> rules(h, e, river, reach) == Some(DRAW),
        h[3] == 1 && h[4] + h[5] + h[6] == 0 && e[3] + e[4] + e[5] + e[6] == 0 && e[2] == 0 && e[1]
            <= 1 ==> rules(h, e, river, reach) == Some(WIN),
        h[5] == 1 && h[3] + h[4] + h[6] == 0 && e[3] + e[4] + e[5] + e[6] == 0 && (e[1] >= 1 || e[2]
            >= 1) ==> rules(h, e, river, reach) == Some(DRAW),
        h[5] == 1 && h[3] + h[4] == 0 && river == 0 && e[3] + e[4] + e[5] + e[6] == 0 ==> rules(
            h,
            e,
            river,
            reach,
        ) == Some(DRAW),
        h[5] == 1 && h[3] + h[4] == 0 && h[6] >= 1 && river >= 1 && e[3] + e[4] + e[5] + e[6] == 0
            && e[1] == 2 && e[2] == 2 ==> rules(h, e, river, reach) == Some(DRAW),
        h[5] == 1 && h[3] + h[4] == 0 && h[6] >= 1 && river >= 1 && e[3] + e[4] + e[5] + e[6] == 0
            && (e[1] < 2 || e[2] < 2) ==> rules(h, e, river, reach) == Some(WIN),
        h[4] == 1 && h[3] == 1 && h[5] + h[6] == 0 && e[4] == 1 && e[3] + e[5] + e[6] == 0 ==> rules(
            h,
            e,
            river,
            reach,
        ) == Some(WIN),
        h[4] == 1 && h[5] == 1 && h[3] + h[6] == 0 && e[4] == 1 && e[3] + e[5] + e[6] == 0 ==> rules(
            h,
            e,
            river,
            reach,
        ) == Some(WIN),
        h[5] == 2 && h[3] + h[4] + h[6] == 0 && e[3] + e[4] + e[5] + e[6] == 0 && (e[1] < 2 || e[2]
            < 2) ==> rules(h, e, river, reach) == Some(WIN),
        h[4] == 1 && h[3] + h[5] + h[6] == 0 && e[3] + e[4] + e[5] + e[6] == 0 && (e[1] < 2 || e[2]
            < 2) ==> rules(h, e, river, reach) == Some(WIN),
        h[3] == 2 && h[4] + h[5] + h[6] == 0 && e[3] + e[4] + e[5] + e[6] == 0 ==> rules(
            h,
            e,
            river,
            reach,
        ) == Some(WIN),
        e[4] == 1 && e[3] == 1 && e[5] + e[6] == 0 && h[4] == 1 && h[3] + h[5] + h[6] == 0 ==> rules(
            h,
            e,
            river,
            reach,
        ) == Some(LOSS),
        e[4] == 1 && e[3] + e[5] + e[6] == 0 && h[3] + h[4] + h[5] + h[6] == 0 && (h[1] < 2 || h[2]
            < 2) ==> rules(h, e, river, reach) == Some(LOSS),
{
}

/// The score learnt last for `hash` among the first `n` entries, if any.
pub open spec fn learnt(d: Seq<(u64, i32)>, hash: u64, n: int) -> Option<i32>
    decreases n,
{
    if n <= 0 {
        None
    } else if d[n - 1].0 == hash {
        Some(d[n - 1].1)
    } else {
        learnt(d, hash, n - 1)
    }
}

/// No hash is learnt twice.
pub open spec fn distinct(d: Seq<(u64, i32)>) -> bool {
    forall|i: int, j: int| 0 <= i < j < d.len() ==> #[trigger] d[i].0 != #[trigger] d[j].0
}

/// `after` is what recording `score` for `hash` leaves of `before`: the
/// first entry for `hash` updated, or a new entry appended when there is
/// none.
pub open spec fn sync_post(before: Seq<(u64, i32)>, after: Seq<(u64, i32)>, hash: u64, score: i32) -> bool {
    ||| exists|i: int|
        0 <= i < before.len() && before[i].0 == hash && (forall|j: int|
            0 <= j < i ==> before[j].0 != hash) && after == before.update(i, (hash, score))
    ||| (forall|j: int| 0 <= j < before.len() ==> before[j].0 != hash) && after == before.push(
        (hash, score),
    )
}

/// `learnt` finds what no later entry hides.
proof fn lemma_learnt_at(d: Seq<(u64, i32)>, hash: u64, k: int, n: int)
    requires
        0 <= k < n <= d.len(),
        d[k].0 == hash,
        forall|j: int| k < j < n ==> #[trigger] d[j].0 != hash,
    ensures
        learnt(d, hash, n) == Some(d[k].1),
    decreases n,
{
    if n - 1 > k {
        lemma_learnt_at(d, hash, k, n - 1);
    }
}

/// A learnt score reads back: in a table without repeated hashes, recording
/// `score` for `hash` keeps the hashes distinct, and probing `hash` then
/// gives `score`.
pub proof fn lemma_sync_then_probe(before: Seq<(u64, i32)>, after: Seq<(u64, i32)>, hash: u64, score: i32)
    requires
        distinct(before),
        sync_post(before, after, hash, score),
    ensures
        distinct(after),
        learnt(after, hash, after.len() as int) == Some(score),
{
    if exists|i: int|
        0 <= i < before.len() && before[i].0 == hash && (forall|j: int|
            0 <= j < i ==> before[j].0 != hash) && after == before.update(i, (hash, score)) {
        let i = choose|i: int|
            0 <= i < before.len() && before[i].0 == hash && (forall|j: int|
                0 <= j < i ==> before[j].0 != hash) && after == before.update(i, (hash, score));
        assert forall|a: int, b: int| 0 <= a < b < after.len() implies #[trigger] after[a].0 != #[trigger] after[b].0 by {
            assert(before[a].0 != before[b].0);
        }
        assert forall|j: int| i < j < after.len() implies #[trigger] after[j].0 != hash by {
            assert(before[i].0 != before[j].0);
        }
        lemma_learnt_at(after, hash, i, after.len() as int);
    } else {
        assert forall|a: int, b: int| 0 <= a < b < after.len() implies #[trigger] after[a].0 != #[trigger] after[b].0 by {
            if b < before.len() {
                assert(before[a].0 != before[b].0);
            }
        }
        lemma_learnt_at(after, hash, before.len() as int, after.len() as int);
    }
}

/// The endgame score of `pos` for the side to move: a learnt score for its
/// hash first, else the first material rule that applies.
pub open spec fn endgame_score(e: Endgame, pos: Position) -> Option<i32> {
    match learnt(e.dynamic@, pos.hash, e.dynamic@.len() as int) {
        Some(s) => Some(s),
        None => rules(
            count_of(pos).hero,
            count_of(pos).enemy,
            river_spec(pos.grid@, pos.side) as int,
            river_spec(pos.grid@, (1 - pos.side) as u8) as int,
        ),
    }
}

/// The material sums that `eval` adds up fit in a byte.
pub open spec fn sums_fit(pos: Position) -> bool {
    let side = pos.side as int;
    let foe = 1 - side;
    &&& pos.counts[side * 7 + 3] + pos.counts[side * 7 + 4] + pos.counts[side * 7 + 5] + pos.counts[side * 7 + 6] <= 255
    &&& pos.counts[foe * 7 + 3] + pos.counts[foe * 7 + 4] + pos.counts[foe * 7 + 5] + pos.counts[foe * 7 + 6] <= 255
}

/// Endgame knowledge: ten material rules and a table of learnt scores.
#[derive(Clone, Debug)]
pub struct Endgame {
    /// Number of material rules.
    pub total: usize,
    /// Padding.
    pub pad: [u8; 56],
    /// Learnt `(hash, score)` pairs.
    pub dynamic: Vec<(u64, i32)>,
}

impl Endgame {
    /// The rules with an empty table of learnt scores.
    pub fn new() -> (r: Self)
        ensures
            r.total == 10,
            r.dynamic@.len() == 0,
    {
        Self { total: 10, pad: [0; 56], dynamic: Vec::new() }
    }

    /// Records `score` for `hash`: the first entry for `hash` is updated, or
    /// a new entry is appended. Always succeeds.
    pub fn sync(&mut self, hash: u64, score: i32) -> (r: bool)
        ensures
            r,
            sync_post(old(self).dynamic@, final(self).dynamic@, hash, score),
            final(self).total == old(self).total,
    {
        let mut i: usize = 0;
        while i < self.dynamic.len()
            invariant
                i <= self.dynamic@.len(),
                self.dynamic@ == old(self).dynamic@,
                self.total == old(self).total,
                forall|j: int| 0 <= j < i ==> self.dynamic@[j].0 != hash,
            decreases self.dynamic@.len() - i,
        {
            if self.dynamic[i].0 == hash {
                self.dynamic.set(i, (hash, score));
                return true;
            }
            i += 1;
        }
        self.dynamic.push((hash, score));
        true
    }

    /// The score learnt last for `hash`, if any.
    pub fn probe(&self, hash: u64) -> (r: Option<i32>)
        ensures
            r == learnt(self.dynamic@, hash, self.dynamic@.len() as int),
    {
        let mut i = self.dynamic.len();
        while i > 0
            invariant
                i <= self.dynamic@.len(),
                learnt(self.dynamic@, hash, self.dynamic@.len() as int) == learnt(self.dynamic@, hash, i as int),
            decreases i,
        {
            let (h, s) = self.dynamic[i - 1];
            if h == hash {
                return Some(s);
            }
            i -= 1;
        }
        None
    }

    /// Forgets all learnt scores.
    pub fn clear(&mut self)
        ensures
            final(self).dynamic@.len() == 0,
            final(self).total == old(self).total,
    {
        self.dynamic.clear();
    }

    /// Number of learnt scores.
    pub fn count(&self) -> (r: usize)
        ensures
            r == self.dynamic@.len(),
    {
        self.dynamic.len()
    }

    /// The endgame score of `pos` for the side to move: a learnt score for
    /// its hash first, else the first material rule that applies, else none.
    pub fn eval(&self, pos: &Position) -> (r: Option<i32>)
        requires
            pos.side <= 1,
            sums_fit(*pos),
        ensures
            r == endgame_score(*self, *pos),
    {
        if let Some(score) = self.probe(pos.hash) {
            return Some(score);
        }
        let cnt = Count::parse(pos);
        let ghost cs = count_of(*pos);
        assert(cnt.hero@ =~= cs.hero@);
        assert(cnt.enemy@ =~= cs.enemy@);
        let h = cnt.hero;
        let e = cnt.enemy;
        let attack = h[3] + h[4] + h[5] + h[6];
        let danger = e[3] + e[4] + e[5] + e[6];
        let reach = river(pos, 1 - pos.side);
        if attack == 0 && danger == 0 {
            return Some(DRAW);
        }
        if h[3] == 1 && attack == 1 {
            if danger == 0 {
                if e[2] >= 1 {
                    return Some(DRAW);
                }
                if e[1] <= 1 && e[2] == 0 {
                    return Some(WIN);
                }
            }
        }
        if e[3] == 1 && danger == 1 {
            if attack == 0 {
                if h[2] >= 1 {
                    return Some(DRAW);
                }
                if h[1] <= 1 && h[2] == 0 {
                    return Some(LOSS);
                }
            }
        }
        if h[5] == 1 && attack == 1 {
            if danger == 0 && (e[1] >= 1 || e[2] >= 1) {
                return Some(DRAW);
            }
        }
        if e[5] == 1 && danger == 1 {
            if attack == 0 && (h[1] >= 1 || h[2] >= 1) {
                return Some(DRAW);
            }
        }
        if h[5] == 1 && cnt.river == 0 && attack == h[5] + h[6] {
            if danger == 0 {
                return Some(DRAW);
            }
        }
        if e[5] == 1 && reach == 0 && danger == e[5] + e[6] {
            if attack == 0 {
                return Some(DRAW);
            }
        }
        if h[5] == 1 && cnt.river >= 1 && attack == h[5] + h[6] {
            if danger == 0 {
                if e[1] == 2 && e[2] == 2 {
                    return Some(DRAW);
                }
                if e[1] < 2 || e[2] < 2 {
                    return Some(WIN);
                }
            }
        }
        if e[5] == 1 && reach >= 1 && danger == e[5] + e[6] {
            if attack == 0 {
                if h[1] == 2 && h[2] == 2 {
                    return Some(DRAW);
                }
                if h[1] < 2 || h[2] < 2 {
                    return Some(LOSS);
                }
            }
        }
        if h[4] == 1 && h[3] == 1 && attack == 2 {
            if e[4] == 1 && danger == 1 {
                return Some(WIN);
            }
        }
        if e[4] == 1 && e[3] == 1 && danger == 2 {
            if h[4] == 1 && attack == 1 {
                return Some(LOSS);
            }
        }
        if h[5] == 2 && attack == 2 {
            if danger == 0 && (e[1] < 2 || e[2] < 2) {
                return Some(WIN);
            }
        }
        if e[5] == 2 && danger == 2 {
            if attack == 0 && (h[1] < 2 || h[2] < 2) {
                return Some(LOSS);
            }
        }
        if h[4] == 1 && attack == 1 {
            if danger == 0 && (e[1] < 2 || e[2] < 2) {
                return Some(WIN);
            }
        }
        if e[4] == 1 && danger == 1 {
            if attack == 0 && (h[1] < 2 || h[2] < 2) {
                return Some(LOSS);
            }
        }
        if h[3] == 2 && attack == 2 {
            if danger == 0 {
                return Some(WIN);
            }
        }
        if e[3] == 2 && danger == 2 {
            if attack == 0 {
                return Some(LOSS);
            }
        }
        if h[4] == 1 && h[5] == 1 && attack == 2 {
            if e[4] == 1 && danger == 1 {
                return Some(WIN);
            }
        }
        if e[4] == 1 && e[5] == 1 && danger == 2 {
            if h[4] == 1 && attack == 1 {
                return Some(LOSS);
            }
        }
        None
    }
}

} // verus!
