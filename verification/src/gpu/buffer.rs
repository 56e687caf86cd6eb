//! A block of memory of power-of-two size, written and read as a whole or
//! used as a ring of length-framed messages: `push` appends a frame (the
//! message length as four little-endian bytes, then the message) and `pull`
//! takes the oldest frame out.
use vstd::prelude::*;
use crate::book::loader::{bytes32, le32, lemma_b32, push32, read32};
use crate::cqrs::queue::{is_pow2, lemma_window, next_pow2};
use super::status::Status;

verus! {

/// Moving byte messages in and out of device memory.
pub trait Storable {
    /// The state that pushes and pulls need.
    spec fn held(&self) -> bool;

    /// Appends the message `source`.
    fn push(&mut self, source: &[u8]) -> Result<(), Status>
        requires
            old(self).held(),
    ;

    /// Takes the oldest message into the front of `target`.
    fn pull(&mut self, target: &mut [u8]) -> Result<(), Status>
        requires
            old(self).held(),
    ;
}

/// A block of host or device memory.
#[derive(Debug)]
pub struct Buffer {
    /// The memory; empty once freed.
    pub storage: Vec<u8>,
    /// Bytes of data written as a whole.
    pub bytes: usize,
    /// Size of the memory in bytes; 0 once freed.
    pub capacity: usize,
    /// Ring position of the oldest frame.
    pub head: usize,
    /// Ring position where the next frame goes.
    pub tail: usize,
    /// Ring position up to which frames are complete.
    pub commit: usize,
    /// The memory spans whole 64-byte lines.
    pub aligned: bool,
    /// The memory belongs to the device rather than the host.
    pub device: bool,
    /// Host and device share the memory without copies.
    pub shared: bool,
    /// Padding.
    pub pad: [u8; 13],
}

/// The frame of message `m`: its length (modulo 2^32) as four
/// little-endian bytes, then the message.
pub open spec fn frame(m: Seq<u8>) -> Seq<u8> {
    bytes32(m.len() as int % 4294967296) + m
}

/// The frames of `ms`, oldest first.
pub open spec fn frames(ms: Seq<Seq<u8>>) -> Seq<u8>
    decreases ms.len(),
{
    if ms.len() == 0 {
        Seq::empty()
    } else {
        frames(ms.drop_last()) + frame(ms.last())
    }
}

/// The answer of `push` for a message of `len` bytes: a fault for an empty
/// message or freed memory, full when the frame does not fit in what is
/// free, success otherwise.
pub open spec fn pushed(b: Buffer, len: nat) -> Result<(), Status> {
    if len == 0 || b.capacity == 0 {
        Err(Status::Fault)
    } else if 4 + len > b.capacity - b.pending().len() {
        Err(Status::Full)
    } else {
        Ok(())
    }
}

/// The answer of `pull` into `room` bytes when `p` is pending: a fault for
/// no room or freed memory, ready (nothing to take yet) while the oldest
/// frame is incomplete, a fault when its message does not fit in `room`,
/// success otherwise.
pub open spec fn pulled(p: Seq<u8>, room: nat, cap: usize) -> Result<(), Status> {
    if room == 0 || cap == 0 {
        Err(Status::Fault)
    } else if p.len() < 4 || p.len() < 4 + le32(p, 0) {
        Err(Status::Ready)
    } else if room < le32(p, 0) {
        Err(Status::Fault)
    } else {
        Ok(())
    }
}

/// Position `x + j` on a ring of `c` slots, from the slot of `x`.
proof fn lemma_slot(x: int, j: int, c: int)
    requires
        c > 0,
        x >= 0,
        0 <= j < c,
    ensures
        (x + j) % c == (if x % c + j < c {
            x % c + j
        } else {
            x % c + j - c
        }),
{
    vstd::arithmetic::div_mod::lemma_fundamental_div_mod(x, c);
    let q = x / c;
    let o = x % c;
    if o + j < c {
        assert(x == q * c + o) by {
            vstd::arithmetic::mul::lemma_mul_is_commutative(c, q);
        }
        vstd::arithmetic::div_mod::lemma_fundamental_div_mod_converse(x + j, c, q, o + j);
    } else {
        assert((q + 1) * c == q * c + c) by (nonlinear_arith);
        vstd::arithmetic::mul::lemma_mul_is_commutative(c, q);
        vstd::arithmetic::div_mod::lemma_fundamental_div_mod_converse(x + j, c, q + 1, o + j - c);
    }
}

/// The index of ring position `x + j` given `o`, the slot of `x`.
fn step(o: usize, j: usize, c: usize) -> (r: usize)
    requires
        o < c,
        j < c,
    ensures
        r == (if o + j < c {
            o + j
        } else {
            o + j - c
        }),
{
    if j < c - o {
        o + j
    } else {
        j - (c - o)
    }
}

/// Frames read back in order: the frames of `ms` and then `m` are the frames
/// of `ms` with `m` appended, and the frames of a non-empty `ms` begin with
/// the length of its first message, then that message, then the frames of
/// the rest. So what `pull` gives back is what `push` put in, first in first
/// out.
pub proof fn lemma_frames_fifo(ms: Seq<Seq<u8>>, m: Seq<u8>)
    requires
        forall|i: int| 0 <= i < ms.len() ==> #[trigger] ms[i].len() < 4294967296,
        m.len() < 4294967296,
    ensures
        frames(ms.push(m)) == frames(ms) + frame(m),
        ms.len() > 0 ==> {
            let f = frames(ms);
            let n = ms[0].len() as int;
            &&& f.len() >= 4 + n
            &&& le32(f, 0) == n
            &&& f.subrange(4, 4 + n) == ms[0]
            &&& f.subrange(4 + n, f.len() as int) == frames(ms.drop_first())
        },
    decreases ms.len(),
{
    assert(ms.push(m).drop_last() =~= ms);
    if ms.len() > 0 {
        let f = frames(ms);
        let n = ms[0].len() as int;
        if ms.len() == 1 {
            assert(ms.drop_last() =~= Seq::<Seq<u8>>::empty());
            assert(ms.drop_first() =~= Seq::<Seq<u8>>::empty());
            assert(frames(ms.drop_last()) =~= Seq::<u8>::empty());
            assert(n % 4294967296 == n);
            lemma_b32(n);
            assert(f =~= frame(ms[0]));
            assert(le32(f, 0) == le32(bytes32(n), 0));
            assert(f.subrange(4, 4 + n) =~= ms[0]);
            assert(f.subrange(4 + n, f.len() as int) =~= frames(ms.drop_first()));
        } else {
            let d = ms.drop_last();
            lemma_frames_fifo(d, ms.last());
            let g = frames(d);
            assert(d[0] == ms[0]);
            assert(f == g + frame(ms.last()));
            assert(le32(f, 0) == le32(g, 0));
            assert(f.subrange(4, 4 + n) =~= g.subrange(4, 4 + n));
            assert(d.drop_first() =~= ms.drop_first().drop_last());
            assert(ms.drop_first().last() == ms.last());
            assert(frames(ms.drop_first()) == frames(d.drop_first()) + frame(ms.last()));
            assert(f.subrange(4 + n, f.len() as int) =~= g.subrange(4 + n, g.len() as int) + frame(
                ms.last(),
            ));
        }
    }
}

impl Buffer {
    /// Sizes agree, complete frames are all that was pushed, and ring
    /// positions stay clear of overflow while the memory is held.
    pub open spec fn wf(&self) -> bool {
        &&& self.storage@.len() == self.capacity
        &&& self.bytes <= self.capacity
        &&& self.commit == self.tail
        &&& self.capacity > 0 ==> {
            &&& self.head <= self.tail <= self.head + self.capacity
            &&& self.head + self.capacity <= usize::MAX
        }
    }

    /// The byte at ring position `head + x`.
    pub open spec fn slot(&self, x: int) -> u8 {
        self.storage@[(self.head + x) % (self.capacity as int)]
    }

    /// The bytes of the complete frames not yet pulled, oldest first.
    pub open spec fn pending(&self) -> Seq<u8> {
        Seq::new((self.commit - self.head) as nat, |k: int| self.slot(k))
    }

    /// Everything but the memory and the ring positions is unchanged.
    pub open spec fn keeps(&self, other: Buffer) -> bool {
        &&& self.bytes == other.bytes
        &&& self.capacity == other.capacity
        &&& self.aligned == other.aligned
        &&& self.device == other.device
        &&& self.shared == other.shared
        &&& self.pad == other.pad
    }

    /// Zeroed memory for `bytes` bytes, rounded up to a power of two of at
    /// least 64; on the device when `device`, shared with the host when also
    /// `unified`. Zero bytes, or more than the largest power of two that an
    /// `isize` holds (the rounded size would exceed `isize::MAX`, which no
    /// memory layout takes), is a fault;
    /// memory the system cannot give is exhausted.
    pub fn allocate(bytes: usize, device: bool, unified: bool) -> (r: Result<Self, Status>)
        ensures
            match r {
                Ok(b) => {
                    &&& 0 < bytes <= isize::MAX as usize / 2 + 1
                    &&& b.wf()
                    &&& is_pow2(b.capacity as nat)
                    &&& b.capacity >= 64
                    &&& b.capacity >= bytes
                    &&& (b.capacity == 64 || b.capacity / 2 < bytes)
                    &&& b.storage@ == Seq::new(b.capacity as nat, |i: int| 0u8)
                    &&& b.bytes == bytes
                    &&& b.head == 0 && b.tail == 0 && b.commit == 0
                    &&& b.aligned
                    &&& b.device == device
                    &&& b.shared == (unified && device)
                },
                Err(e) => if bytes == 0 || bytes > isize::MAX as usize / 2 + 1 {
                    e == Status::Fault
                } else {
                    e == Status::Exhausted
                },
            },
    {
        if bytes == 0 || bytes > isize::MAX as usize / 2 + 1 {
            return Err(Status::Fault);
        }
        let rounded = next_pow2(bytes);
        let capacity = if rounded < 64 {
            64
        } else {
            rounded
        };
        proof {
            if rounded < 64 {
                assert(is_pow2(2)) by {
                    reveal_with_fuel(is_pow2, 2);
                }
                assert(is_pow2(64)) by {
                    reveal_with_fuel(is_pow2, 7);
                }
            }
        }
        let mut storage: Vec<u8> = Vec::new();
        match storage.try_reserve(capacity) {
            Ok(()) => {},
            Err(_) => {
                return Err(Status::Exhausted);
            },
        }
        let mut i: usize = 0;
        while i < capacity
            invariant
                i <= capacity,
                storage@ == Seq::new(i as nat, |k: int| 0u8),
            decreases capacity - i,
        {
            storage.push(0u8);
            i += 1;
            assert(storage@ =~= Seq::new(i as nat, |k: int| 0u8));
        }
        Ok(
            Self {
                storage,
                bytes,
                capacity,
                head: 0,
                tail: 0,
                commit: 0,
                aligned: true,
                device,
                shared: unified && device,
                pad: [0; 13],
            },
        )
    }

    /// The memory.
    pub fn pointer(&self) -> (r: &[u8])
        ensures
            r@ == self.storage@,
    {
        self.storage.as_slice()
    }

    /// The memory, to write through.
    pub fn mutable(&mut self) -> (r: &mut [u8])
        ensures
            r@ == old(self).storage@,
            final(self).storage@ == final(r)@,
            *final(self) == (Buffer { storage: final(self).storage, ..*old(self) }),
    {
        self.storage.as_mut_slice()
    }

    /// Bytes of data written as a whole.
    pub fn bytes(&self) -> (r: usize)
        ensures
            r == self.bytes,
    {
        self.bytes
    }

    /// Size of the memory in bytes.
    pub fn capacity(&self) -> (r: usize)
        ensures
            r == self.capacity,
    {
        self.capacity
    }

    /// Whether the memory spans whole 64-byte lines.
    pub fn aligned(&self) -> (r: bool)
        ensures
            r == self.aligned,
    {
        self.aligned
    }

    /// Whether the memory belongs to the device.
    pub fn device(&self) -> (r: bool)
        ensures
            r == self.device,
    {
        self.device
    }

    /// Whether host and device share the memory.
    pub fn shared(&self) -> (r: bool)
        ensures
            r == self.shared,
    {
        self.shared
    }

    /// Ring position of the oldest frame.
    pub fn head(&self) -> (r: usize)
        ensures
            r == self.head,
    {
        self.head
    }

    /// Ring position up to which frames are complete.
    pub fn commit(&self) -> (r: usize)
        ensures
            r == self.commit,
    {
        self.commit
    }

    /// Copies `source` to the start of the memory and makes it the data;
    /// a fault, changing nothing, when it does not fit or the memory is freed.
    pub fn write(&mut self, source: &[u8]) -> (r: Result<(), Status>)
        requires
            old(self).wf(),
        ensures
            final(self).wf(),
            r is Ok <==> old(self).capacity > 0 && source@.len() <= old(self).capacity,
            r is Err ==> r == Err::<(), Status>(Status::Fault) && *final(self) == *old(self),
            r is Ok ==> final(self).storage@ == source@ + old(self).storage@.subrange(
                source@.len() as int,
                old(self).capacity as int,
            ) && final(self).bytes == source@.len() && final(self).capacity == old(self).capacity
                && final(self).head == old(self).head && final(self).tail == old(self).tail
                && final(self).commit == old(self).commit && final(self).aligned == old(
                self,
            ).aligned && final(self).device == old(self).device && final(self).shared == old(
                self,
            ).shared,
    {
        let len = source.len();
        if len > self.capacity || self.capacity == 0 {
            return Err(Status::Fault);
        }
        let ghost before = self.storage@;
        let ghost orig = *self;
        let mut i: usize = 0;
        while i < len
            invariant
                i <= len,
                len == source@.len(),
                len <= self.capacity,
                orig.wf(),
                before == orig.storage@,
                *self == (Buffer { storage: self.storage, ..orig }),
                self.storage@.len() == before.len(),
                forall|k: int| 0 <= k < i ==> self.storage@[k] == source@[k],
                forall|k: int| i <= k < before.len() ==> self.storage@[k] == before[k],
            decreases len - i,
        {
            self.storage.set(i, source[i]);
            i += 1;
        }
        self.bytes = len;
        assert(self.storage@ =~= source@ + before.subrange(len as int, before.len() as int));
        Ok(())
    }

    /// Copies the data to the front of `target`; a fault, changing nothing,
    /// when `target` is shorter than the data or the memory is freed.
    pub fn read(&self, target: &mut [u8]) -> (r: Result<(), Status>)
        requires
            self.wf(),
        ensures
            r is Ok <==> self.capacity > 0 && old(target)@.len() >= self.bytes,
            r is Err ==> r == Err::<(), Status>(Status::Fault) && final(target)@ == old(target)@,
            r is Ok ==> final(target)@ == self.storage@.subrange(0, self.bytes as int) + old(
                target,
            )@.subrange(self.bytes as int, old(target)@.len() as int),
    {
        let n = self.bytes;
        if target.len() < n || self.capacity == 0 {
            return Err(Status::Fault);
        }
        let ghost before = target@;
        let mut i: usize = 0;
        while i < n
            invariant
                i <= n,
                n == self.bytes,
                n <= self.storage@.len(),
                n <= before.len(),
                target@.len() == before.len(),
                forall|k: int| 0 <= k < i ==> target@[k] == self.storage@[k],
                forall|k: int| i <= k < before.len() ==> target@[k] == before[k],
            decreases n - i,
        {
            target[i] = self.storage[i];
            i += 1;
        }
        assert(target@ =~= self.storage@.subrange(0, n as int) + before.subrange(
            n as int,
            before.len() as int,
        ));
        Ok(())
    }

    /// Zeroes the memory and empties the data and the ring; nothing once
    /// freed.
    pub fn clear(&mut self)
        requires
            old(self).wf(),
        ensures
            final(self).wf(),
            old(self).capacity == 0 ==> *final(self) == *old(self),
            old(self).capacity > 0 ==> final(self).storage@ == Seq::new(
                old(self).capacity as nat,
                |i: int| 0u8,
            ) && final(self).bytes == 0 && final(self).head == 0 && final(self).tail == 0
                && final(self).commit == 0 && final(self).capacity == old(self).capacity
                && final(self).aligned == old(self).aligned && final(self).device == old(
                self,
            ).device && final(self).shared == old(self).shared,
    {
        if self.capacity > 0 {
            let cap = self.capacity;
            let ghost orig = *self;
            let mut i: usize = 0;
            while i < cap
                invariant
                    i <= cap,
                    cap == self.capacity,
                    *self == (Buffer { storage: self.storage, ..orig }),
                    self.storage@.len() == cap,
                    forall|k: int| 0 <= k < i ==> self.storage@[k] == 0u8,
                decreases cap - i,
            {
                self.storage.set(i, 0u8);
                i += 1;
            }
            assert(self.storage@ =~= Seq::new(cap as nat, |i: int| 0u8));
            self.bytes = 0;
            self.head = 0;
            self.tail = 0;
            self.commit = 0;
        }
    }

    /// Gives the memory back: no memory, data or alignment, not shared;
    /// nothing once freed.
    pub fn free(&mut self)
        requires
            old(self).wf(),
        ensures
            final(self).wf(),
            old(self).capacity == 0 ==> *final(self) == *old(self),
            old(self).capacity > 0 ==> *final(self) == (Buffer {
                storage: final(self).storage,
                bytes: 0,
                capacity: 0,
                aligned: false,
                shared: false,
                ..*old(self)
            }),
            final(self).storage@.len() == final(self).capacity,
    {
        if self.capacity > 0 {
            self.storage = Vec::new();
            self.bytes = 0;
            self.capacity = 0;
            self.aligned = false;
            self.shared = false;
        }
    }

    /// Appends the frame of `source` to the ring.
    pub fn push(&mut self, source: &[u8]) -> (r: Result<(), Status>)
        requires
            old(self).wf(),
        ensures
            final(self).wf(),
            r == pushed(*old(self), source@.len()),
            r is Err ==> *final(self) == *old(self),
            r is Ok ==> final(self).pending() == old(self).pending() + frame(source@)
                && final(self).keeps(*old(self)),
            r is Ok ==> final(self).head == old(self).head && final(self).tail == old(self).tail + 4
                + source@.len() && final(self).commit == final(self).tail,
    {
        let length = source.len();
        if length == 0 || self.capacity == 0 {
            return Err(Status::Fault);
        }
        let cap = self.capacity;
        let head = self.head;
        let tail = self.tail;
        let used = tail - head;
        let free = cap - used;
        if length > free || free - length < 4 {
            return Err(Status::Full);
        }
        let mut data: Vec<u8> = Vec::new();
        let size = (length as u64 % 4294967296) as u32;
        push32(&mut data, size);
        proof {
            lemma_b32(size as int);
        }
        let mut k: usize = 0;
        while k < length
            invariant
                k <= length,
                length == source@.len(),
                size == length as int % 4294967296,
                data@ == bytes32(size as int) + source@.subrange(0, k as int),
            decreases length - k,
        {
            data.push(source[k]);
            k += 1;
            assert(data@ =~= bytes32(size as int) + source@.subrange(0, k as int));
        }
        assert(source@.subrange(0, length as int) =~= source@);
        let total = data.len();
        let ghost old_pending = self.pending();
        let ghost before = *self;
        let offset = tail % cap;
        let mut i: usize = 0;
        while i < total
            invariant
                i <= total,
                total == data@.len(),
                total == 4 + length,
                used + total <= cap,
                used == tail - head,
                cap == self.capacity,
                head == self.head,
                tail == self.tail,
                offset == tail % cap,
                self.storage@.len() == cap,
                head <= tail,
                tail == head + used,
                head + cap <= usize::MAX,
                self.keeps(before),
                self.commit == before.commit,
                self.head == before.head,
                old_pending == before.pending(),
                old_pending.len() == used,
                forall|x: int| 0 <= x < used ==> #[trigger] self.slot(x) == old_pending[x],
                forall|j: int| 0 <= j < i ==> self.slot(used + j) == #[trigger] data@[j],
            decreases total - i,
        {
            let p = step(offset, i, cap);
            proof {
                lemma_slot(tail as int, i as int, cap as int);
            }
            let ghost was = *self;
            self.storage.set(p, data[i]);
            proof {
                assert forall|x: int| 0 <= x < used implies #[trigger] self.slot(x) == old_pending[x] by {
                    lemma_window(head as int, head + x, tail + i, cap as int);
                    assert(self.slot(x) == was.slot(x));
                }
                assert forall|j: int| 0 <= j < i + 1 implies #[trigger] self.slot(used + j) == data@[j] by {
                    if j < i {
                        lemma_window(head as int, head + used + j, tail + i, cap as int);
                        assert(self.slot(used + j) == was.slot(used + j));
                    }
                }
            }
            i += 1;
        }
        let ghost mid = *self;
        self.tail = tail + total;
        self.commit = self.tail;
        proof {
            assert(self.pending() =~= old_pending + frame(source@)) by {
                assert forall|x: int| 0 <= x < self.pending().len() implies #[trigger] self.pending()[x]
                    == (old_pending + frame(source@))[x] by {
                    assert(self.pending()[x] == self.slot(x));
                    if x >= used {
                        let j = x - used;
                        assert(data@ == frame(source@));
                        assert(data@[j] == frame(source@)[j]);
                        assert(mid.slot(used + j) == data@[j]);
                        assert(self.slot(used + j) == mid.slot(used + j));
                    } else {
                        assert(mid.slot(x) == old_pending[x]);
                        assert(self.slot(x) == mid.slot(x));
                    }
                }
            }
        }
        Ok(())
    }

    /// Takes the oldest frame's message into the front of `target`.
    pub fn pull(&mut self, target: &mut [u8]) -> (r: Result<(), Status>)
        requires
            old(self).wf(),
            old(self).commit + old(self).capacity <= usize::MAX,
        ensures
            final(self).wf(),
            r == pulled(old(self).pending(), old(target)@.len(), old(self).capacity),
            r is Err ==> *final(self) == *old(self) && final(target)@ == old(target)@,
            r is Ok ==> {
                let p = old(self).pending();
                let n = le32(p, 0);
                &&& final(target)@ == p.subrange(4, 4 + n) + old(target)@.subrange(
                    n,
                    old(target)@.len() as int,
                )
                &&& final(self).pending() == p.subrange(4 + n, p.len() as int)
                &&& final(self).head == old(self).head + 4 + n
                &&& final(self).storage == old(self).storage
                &&& final(self).tail == old(self).tail
                &&& final(self).keeps(*old(self))
            },
    {
        let room = target.len();
        if room == 0 || self.capacity == 0 {
            return Err(Status::Fault);
        }
        let cap = self.capacity;
        let head = self.head;
        let used = self.commit - head;
        let ghost p = self.pending();
        if used < 4 {
            return Err(Status::Ready);
        }
        let base = head % cap;
        let mut header: Vec<u8> = Vec::new();
        let mut j: usize = 0;
        while j < 4
            invariant
                j <= 4,
                4 <= used <= cap,
                base == head % cap,
                head == self.head,
                cap == self.capacity,
                self.wf(),
                p == self.pending(),
                p.len() == used,
                header@.len() == j,
                forall|k: int| 0 <= k < j ==> header@[k] == p[k],
            decreases 4 - j,
        {
            let q = step(base, j, cap);
            proof {
                lemma_slot(head as int, j as int, cap as int);
            }
            header.push(self.storage[q]);
            j += 1;
        }
        let n = read32(header.as_slice(), 0) as usize;
        assert(le32(header@, 0) == le32(p, 0));
        if used - 4 < n {
            return Err(Status::Ready);
        }
        if room < n {
            return Err(Status::Fault);
        }
        let ghost before = target@;
        let mut i: usize = 0;
        while i < n
            invariant
                i <= n,
                4 + n <= used <= cap,
                n <= room,
                room == before.len(),
                base == head % cap,
                head == self.head,
                cap == self.capacity,
                self.wf(),
                p == self.pending(),
                p.len() == used,
                target@.len() == room,
                forall|k: int| 0 <= k < i ==> target@[k] == p[4 + k],
                forall|k: int| i <= k < room ==> target@[k] == before[k],
            decreases n - i,
        {
            let q = step(base, 4 + i, cap);
            proof {
                lemma_slot(head as int, 4 + i, cap as int);
            }
            target[i] = self.storage[q];
            i += 1;
        }
        let ghost was = *self;
        self.head = head + 4 + n;
        proof {
            assert(target@ =~= p.subrange(4, 4 + n as int) + before.subrange(n as int, room as int));
            assert forall|x: int| 0 <= x < self.pending().len() implies #[trigger] self.pending()[x]
                == p.subrange(4 + n as int, p.len() as int)[x] by {
                assert(self.slot(x) == was.slot(4 + n + x));
            }
            assert(self.pending() =~= p.subrange(4 + n as int, p.len() as int));
        }
        Ok(())
    }
}

impl Storable for Buffer {
    open spec fn held(&self) -> bool {
        self.wf() && self.commit + self.capacity <= usize::MAX
    }

    fn push(&mut self, source: &[u8]) -> (r: Result<(), Status>)
        ensures
            final(self).wf(),
            r == pushed(*old(self), source@.len()),
            r is Err ==> *final(self) == *old(self),
            r is Ok ==> final(self).pending() == old(self).pending() + frame(source@)
                && final(self).keeps(*old(self)),
            r is Ok ==> final(self).head == old(self).head && final(self).tail == old(self).tail + 4
                + source@.len() && final(self).commit == final(self).tail,
    {
        Buffer::push(self, source)
    }

    fn pull(&mut self, target: &mut [u8]) -> (r: Result<(), Status>)
        ensures
            final(self).wf(),
            r == pulled(old(self).pending(), old(target)@.len(), old(self).capacity),
            r is Err ==> *final(self) == *old(self) && final(target)@ == old(target)@,
            r is Ok ==> {
                let p = old(self).pending();
                let n = le32(p, 0);
                &&& final(target)@ == p.subrange(4, 4 + n) + old(target)@.subrange(
                    n,
                    old(target)@.len() as int,
                )
                &&& final(self).pending() == p.subrange(4 + n, p.len() as int)
                &&& final(self).head == old(self).head + 4 + n
                &&& final(self).storage == old(self).storage
                &&& final(self).tail == old(self).tail
                &&& final(self).keeps(*old(self))
            },
    {
        Buffer::pull(self, target)
    }
}

} // verus!
