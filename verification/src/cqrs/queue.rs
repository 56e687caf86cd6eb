//! A bounded ring buffer of messages. Each slot carries a sequence number
//! that tells producers and consumers whether the slot is free for the
//! position they hold: a free slot carries the position that may fill it,
//! a filled slot that position plus one.
use vstd::prelude::*;
use super::kind::Kind;

verus! {

/// A message.
#[derive(Debug)]
pub struct Item {
    /// Message number.
    pub id: u64,
    /// Time stamp.
    pub stamp: u64,
    /// What the message is.
    pub kind: Kind,
    /// Payload text.
    pub data: String,
}

impl Clone for Item {
    /// A copy of the message.
    fn clone(&self) -> (r: Self)
        ensures
            r == *self,
    {
        Item { id: self.id, stamp: self.stamp, kind: self.kind, data: self.data.clone() }
    }
}

impl Item {
    /// An empty event message with number 0.
    pub fn empty() -> (r: Self)
        ensures
            r.id == 0 && r.stamp == 0 && r.kind == Kind::Event && r.data@ == Seq::<char>::empty(),
    {
        Self { id: 0, stamp: 0, kind: Kind::Event, data: String::new() }
    }
}

/// One slot of the ring.
#[derive(Debug)]
pub struct Slot {
    /// Sequence number of the slot.
    pub sequence: usize,
    /// The message held.
    pub item: Item,
}

/// A bounded first-in first-out queue of messages over a ring of slots
/// whose number is a power of two; a position's slot is the position modulo
/// that number.
#[derive(Debug)]
pub struct Queue {
    /// Position of the next message to take.
    pub head: usize,
    /// Padding.
    pub pad0: [u8; 56],
    /// Position of the next message to put.
    pub tail: usize,
    /// Padding.
    pub pad1: [u8; 56],
    /// Number of slots.
    pub cap: usize,
    /// `cap - 1`, the mask from a position to its slot.
    pub mask: usize,
    /// The slots.
    pub slots: Vec<Slot>,
}

/// Whether `n` is a power of two.
pub open spec fn is_pow2(n: nat) -> bool
    decreases n,
{
    if n == 1 {
        true
    } else if n < 1 || n % 2 == 1 {
        false
    } else {
        is_pow2(n / 2)
    }
}

/// `r` is the smallest power of two no smaller than `n` (1 for 0 and 1).
pub open spec fn is_next_pow2(r: usize, n: usize) -> bool {
    &&& is_pow2(r as nat)
    &&& r >= n
    &&& (r == 1 || r / 2 < n)
}

/// The smallest power of two no smaller than `n`.
pub(crate) fn next_pow2(n: usize) -> (r: usize)
    requires
        n <= usize::MAX / 2 + 1,
    ensures
        is_next_pow2(r, n),
{
    let mut p: usize = 1;
    while p < n
        invariant
            p >= 1,
            n <= usize::MAX / 2 + 1,
            is_pow2(p as nat),
            p == 1 || p / 2 < n,
        decreases 2 * n - p,
    {
        assert(is_pow2((p * 2) as nat));
        p = p * 2;
    }
    p
}

pub(crate) proof fn lemma_window(a: int, p: int, q: int, c: int)
    requires
        c > 0,
        a <= p < a + c,
        a <= q < a + c,
        p != q,
    ensures
        p % c != q % c,
{
    assert(p == c * (p / c) + p % c) by (nonlinear_arith)
        requires
            c > 0,
    ;
    assert(q == c * (q / c) + q % c) by (nonlinear_arith)
        requires
            c > 0,
    ;
    if p % c == q % c {
        assert(c * (p / c) - c * (q / c) == p - q);
        assert(c * (p / c - q / c) == p - q) by (nonlinear_arith)
            requires
                c * (p / c) - c * (q / c) == p - q,
        ;
        assert(false) by (nonlinear_arith)
            requires
                c * (p / c - q / c) == p - q,
                p != q,
                -c < p - q < c,
                c > 0,
        ;
    }
}

pub(crate) proof fn lemma_wrap(h: int, c: int)
    requires
        c > 0,
        h >= 0,
    ensures
        (h + c) % c == h % c,
{
    assert((h + c) % c == h % c) by (nonlinear_arith)
        requires
            c > 0,
            h >= 0,
    ;
}

/// What a push of `item` onto `q` leaves: the queue `q2` and the answer
/// `r`.
pub open spec fn push_done(q: Queue, q2: Queue, item: Item, r: bool) -> bool {
    &&& q2.wf()
    &&& q2.cap == q.cap
    &&& r == (q.items().len() < q.cap || q.cap == 1)
    &&& r && (q.cap >= 2 || q.items().len() == 0) ==> q2.items() == q.items().push(item)
    &&& r && q.cap == 1 ==> q2.slots@[0].item == item && q2.items() == Seq::new(
        (q.items().len() + 1) as nat,
        |k: int| item,
    )
    &&& r ==> q2.tail == q.tail + 1 && q2.head == q.head
    &&& !r ==> q2 == q
}

/// What a pop from `q` leaves: the queue `q2` and the answer `r`.
pub open spec fn pop_done(q: Queue, q2: Queue, r: Option<Item>) -> bool {
    &&& q2.wf()
    &&& q2.cap == q.cap
    &&& q.items().len() == 0 ==> r is None && q2 == q
    &&& q.items().len() > 0 ==> r == Some(q.items()[0]) && q2.items() == q.items().drop_first()
    &&& q.items().len() > 0 ==> q2.head == q.head + 1 && q2.tail == q.tail
}

impl Queue {
    /// The ring is consistent: a power-of-two number of slots, the head not
    /// past the tail, and positions clear of overflow. With two slots or
    /// more, at most that many messages wait and every slot's sequence
    /// number matches the position it holds or awaits. A single slot always
    /// carries the tail's position, so every push fills it again.
    pub open spec fn wf(&self) -> bool {
        &&& self.cap >= 1
        &&& self.mask == self.cap - 1
        &&& self.slots@.len() == self.cap
        &&& self.head <= self.tail
        &&& self.tail + self.cap <= usize::MAX
        &&& self.cap >= 2 ==> {
            &&& self.tail <= self.head + self.cap
            &&& forall|p: int|
                self.head <= p < self.tail ==> #[trigger] self.slots@[p % (self.cap as int)].sequence == p + 1
            &&& forall|p: int|
                self.tail <= p < self.head + self.cap ==> #[trigger] self.slots@[p % (self.cap as int)].sequence
                    == p
        }
        &&& self.cap == 1 ==> self.slots@[0].sequence == self.tail
    }

    /// The messages waiting, oldest first.
    pub open spec fn items(&self) -> Seq<Item> {
        Seq::new(
            (self.tail - self.head) as nat,
            |k: int| self.slots@[(self.head + k) % (self.cap as int)].item,
        )
    }

    /// An empty queue with room for `cap` messages rounded up to a power of
    /// two.
    pub fn new(cap: usize) -> (r: Self)
        requires
            cap <= usize::MAX / 2 + 1,
        ensures
            is_next_pow2(r.cap, cap),
            r.wf(),
            r.items().len() == 0,
            r.head == 0 && r.tail == 0,
    {
        let size = next_pow2(cap);
        let mut slots: Vec<Slot> = Vec::new();
        let mut i: usize = 0;
        while i < size
            invariant
                i <= size,
                slots@.len() == i,
                forall|j: int| 0 <= j < i ==> #[trigger] slots@[j].sequence == j,
            decreases size - i,
        {
            slots.push(Slot { sequence: i, item: Item::empty() });
            i += 1;
        }
        let q = Self { head: 0, pad0: [0; 56], tail: 0, pad1: [0; 56], cap: size, mask: size - 1, slots };
        proof {
            if size >= 2 {
                assert forall|p: int| q.tail <= p < q.head + q.cap implies #[trigger] q.slots@[p % (q.cap as int)].sequence == p by {
                    vstd::arithmetic::div_mod::lemma_small_mod(p as nat, size as nat);
                }
            } else {
                assert(size == 1);
            }
        }
        q
    }

    /// Puts `item` at the back; returns false, changing nothing, when full.
    /// A single-slot queue is never full: its slot takes every item pushed,
    /// in place of the one it held.
    pub fn push(&mut self, item: Item) -> (r: bool)
        requires
            old(self).wf(),
            old(self).tail + old(self).cap < usize::MAX,
        ensures
            push_done(*old(self), *final(self), item, r),
    {
        let pos = self.tail;
        let idx = pos % self.cap;
        let ghost c = self.cap as int;
        let seq = self.slots[idx].sequence;
        if self.cap == 1 {
            assert(idx == 0);
            let ghost before = *self;
            self.slots.set(idx, Slot { sequence: pos + 1, item });
            self.tail = pos + 1;
            proof {
                assert forall|k: int| 0 <= k < self.items().len() implies #[trigger] self.items()[k] == item by {
                    assert((self.head + k) % 1 == 0);
                }
                assert(self.items() =~= Seq::new((before.items().len() + 1) as nat, |k: int| item));
                if before.items().len() == 0 {
                    assert(self.items() =~= before.items().push(item));
                }
            }
            return true;
        }
        if seq == pos {
            proof {
                if self.tail == self.head + self.cap {
                    lemma_wrap(self.head as int, c);
                    assert(self.slots@[self.head as int % c].sequence == self.head + 1);
                    assert(false);
                }
            }
            let ghost before = *self;
            self.slots.set(idx, Slot { sequence: pos + 1, item });
            self.tail = pos + 1;
            proof {
                assert forall|p: int| self.head <= p < self.tail implies #[trigger] self.slots@[p % c].sequence == p + 1 by {
                    if p != pos {
                        lemma_window(self.head as int, p, pos as int, c);
                        assert(self.slots@[p % c] == before.slots@[p % c]);
                    }
                }
                assert forall|p: int| self.tail <= p < self.head + self.cap implies #[trigger] self.slots@[p % c].sequence == p by {
                    lemma_window(self.head as int, p, pos as int, c);
                    assert(self.slots@[p % c] == before.slots@[p % c]);
                }
                assert forall|k: int| 0 <= k < self.items().len() implies #[trigger] self.items()[k] == before.items().push(item)[k] by {
                    let p = self.head + k;
                    if p != pos {
                        lemma_window(self.head as int, p, pos as int, c);
                        assert(self.slots@[p % c] == before.slots@[p % c]);
                    }
                }
                assert(self.items() =~= before.items().push(item));
            }
            true
        } else {
            proof {
                if self.tail < self.head + self.cap {
                    assert(self.slots@[pos as int % c].sequence == pos);
                }
            }
            false
        }
    }

    /// Takes the message at the front; `None` when empty. A single-slot
    /// queue holding more than one push is not taken from: the slot
    /// carries a later position than the front's, on which taking waits.
    pub fn pop(&mut self) -> (r: Option<Item>)
        requires
            old(self).wf(),
            old(self).cap == 1 ==> old(self).items().len() <= 1,
        ensures
            pop_done(*old(self), *final(self), r),
    {
        let pos = self.head;
        let idx = pos % self.cap;
        let ghost c = self.cap as int;
        let seq = self.slots[idx].sequence;
        if seq == pos + 1 {
            proof {
                if self.tail == self.head {
                    assert(self.slots@[pos as int % c].sequence == pos);
                    assert(false);
                }
            }
            let ghost before = *self;
            let item = self.slots[idx].item.clone();
            let next = pos + self.mask + 1;
            self.slots.set(idx, Slot { sequence: next, item: item.clone() });
            self.head = pos + 1;
            proof {
                lemma_wrap(pos as int, c);
                assert forall|p: int| self.head <= p < self.tail implies #[trigger] self.slots@[p % c].sequence == p + 1 by {
                    lemma_window(pos as int, p, pos as int, c);
                    assert(self.slots@[p % c] == before.slots@[p % c]);
                }
                assert forall|p: int| self.tail <= p < self.head + self.cap implies #[trigger] self.slots@[p % c].sequence == p by {
                    if p != pos + c {
                        lemma_window(pos as int + 1, p, pos + c, c);
                        lemma_window(pos as int, p, pos as int, c);
                        assert(self.slots@[p % c] == before.slots@[p % c]);
                    }
                }
                assert forall|k: int| 0 <= k < self.items().len() implies #[trigger] self.items()[k] == before.items().drop_first()[k] by {
                    let p = self.head + k;
                    lemma_window(pos as int, p, pos as int, c);
                    assert(self.slots@[p % c] == before.slots@[p % c]);
                }
                assert(self.items() =~= before.items().drop_first());
            }
            Some(item)
        } else {
            proof {
                if self.tail > self.head {
                    assert(self.slots@[pos as int % c].sequence == pos + 1);
                }
            }
            None
        }
    }

    /// Number of messages waiting.
    pub fn len(&self) -> (r: usize)
        requires
            self.wf(),
        ensures
            r == self.items().len(),
    {
        self.tail.wrapping_sub(self.head)
    }

    /// Whether no message is waiting.
    pub fn empty(&self) -> (r: bool)
        requires
            self.wf(),
        ensures
            r == (self.items().len() == 0),
    {
        self.len() == 0
    }
}

/// The queue after the first `i` of the pushes of `xs` onto an empty queue
/// holds the first `i` items of `xs`.
proof fn lemma_pushes(qs: Seq<Queue>, xs: Seq<Item>, i: int)
    requires
        qs.len() == xs.len() + 1,
        0 <= i <= xs.len(),
        qs[0].cap >= 2,
        qs[0].items().len() == 0,
        forall|j: int| 0 <= j < xs.len() ==> #[trigger] push_done(qs[j], qs[j + 1], xs[j], true),
    ensures
        qs[i].items() == xs.subrange(0, i),
        qs[i].cap == qs[0].cap,
    decreases i,
{
    if i > 0 {
        lemma_pushes(qs, xs, i - 1);
        let k = i - 1;
        assert(push_done(qs[k], qs[k + 1], xs[k], true));
        assert(xs.subrange(0, i) =~= xs.subrange(0, i - 1).push(xs[i - 1]));
    } else {
        assert(xs.subrange(0, 0) =~= Seq::<Item>::empty());
    }
}

/// After the first `j` pops the queue holds the items of `xs` from `j` on,
/// and each pop so far gave the next item of `xs`.
proof fn lemma_pops(ps: Seq<Queue>, rs: Seq<Option<Item>>, xs: Seq<Item>, j: int)
    requires
        ps.len() == rs.len() + 1,
        0 <= j <= xs.len(),
        j <= rs.len(),
        ps[0].items() == xs,
        forall|k: int| 0 <= k < rs.len() ==> #[trigger] pop_done(ps[k], ps[k + 1], rs[k]),
    ensures
        ps[j].items() == xs.subrange(j, xs.len() as int),
        forall|k: int| 0 <= k < j ==> rs[k] == Some(#[trigger] xs[k]),
    decreases j,
{
    if j > 0 {
        lemma_pops(ps, rs, xs, j - 1);
        let k = j - 1;
        assert(pop_done(ps[k], ps[k + 1], rs[k]));
        assert(ps[j - 1].items()[0] == xs[j - 1]);
        assert(xs.subrange(j, xs.len() as int) =~= xs.subrange(j - 1, xs.len() as int).drop_first());
    } else {
        assert(xs.subrange(0, xs.len() as int) =~= xs);
    }
}

/// First in, first out: on an empty queue of two slots or more, pushing the
/// items of `xs` one by one (each push accepted, so no more of them than
/// the queue holds) and then popping as many times and once more gives the
/// items back in order, then nothing, and leaves the queue empty.
pub proof fn lemma_fifo(qs: Seq<Queue>, xs: Seq<Item>, ps: Seq<Queue>, rs: Seq<Option<Item>>)
    requires
        qs.len() == xs.len() + 1,
        qs[0].wf(),
        qs[0].cap >= 2,
        qs[0].items().len() == 0,
        forall|j: int| 0 <= j < xs.len() ==> #[trigger] push_done(qs[j], qs[j + 1], xs[j], true),
        rs.len() == xs.len() + 1,
        ps.len() == rs.len() + 1,
        ps[0] == qs[xs.len() as int],
        forall|k: int| 0 <= k < rs.len() ==> #[trigger] pop_done(ps[k], ps[k + 1], rs[k]),
    ensures
        forall|k: int| 0 <= k < xs.len() ==> rs[k] == Some(#[trigger] xs[k]),
        rs[xs.len() as int] is None,
        ps[rs.len() as int].items().len() == 0,
{
    let n = xs.len() as int;
    lemma_pushes(qs, xs, n);
    assert(xs.subrange(0, n) =~= xs);
    lemma_pops(ps, rs, xs, n);
    assert(ps[n].items().len() == 0);
    assert(pop_done(ps[n], ps[n + 1], rs[n]));
}

} // verus!
