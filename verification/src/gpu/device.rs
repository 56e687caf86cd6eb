//! A compute device: the platform it runs on, whether a GPU context was set
//! up, and the accounting of its memory. Detecting the hardware and setting
//! up the context happen outside; the device is built from their results.
use vstd::prelude::*;
use crate::book::loader::{le32, read32};
use super::backend::Backend;
use super::buffer::Buffer;
use super::guard::{Guard, reserved, released};
use super::status::Status;

verus! {

/// Querying a device.
pub trait Queryable {
    /// Display name of the engine.
    fn name(&self) -> &'static str;

    /// Device memory in bytes.
    fn memory(&self) -> usize;

    /// Whether the device is in a usable state.
    fn active(&self) -> bool;
}

/// A compute device.
#[derive(Debug)]
pub struct Device {
    /// Device memory accounting.
    pub guard: Guard,
    /// The platform.
    pub backend: Backend,
    /// Status when running on the CPU.
    pub status: Status,
    /// Name of the GPU adapter, when a GPU context was set up.
    pub adapter: Option<String>,
    /// Host and device share memory on this platform.
    pub unified: bool,
    /// Padding.
    pub pad: [u8; 6],
}

/// Weight of a byte by its low three bits: empty, pawn, advisor, elephant,
/// horse, cannon, chariot, king.
pub open spec fn weight_of(b: u8) -> isize {
    let k = b % 8;
    if k == 0 {
        0
    } else if k == 1 {
        10
    } else if k == 2 || k == 3 {
        20
    } else if k == 4 {
        40
    } else if k == 5 {
        45
    } else if k == 6 {
        90
    } else {
        1000
    }
}

/// `acc` plus the weights of the bytes of `s`, wrapping on overflow.
pub open spec fn tally(s: Seq<u8>, acc: isize) -> isize
    decreases s.len(),
{
    if s.len() == 0 {
        acc
    } else {
        tally(s.drop_last(), acc).wrapping_add(weight_of(s.last()))
    }
}

/// The `n` ring bytes of `b` from offset `from` after its head.
pub open spec fn window(b: Buffer, from: int, n: nat) -> Seq<u8> {
    Seq::new(n, |k: int| b.slot(from + k))
}

/// The length in the four ring bytes at offset `rel`.
pub open spec fn ring_len(b: Buffer, rel: int) -> int {
    le32(window(b, rel, 4), 0)
}

/// `acc` plus the weights of the payloads of the frames from offset `rel`,
/// while the offset is below `used`.
pub open spec fn packets(b: Buffer, rel: int, used: int, acc: isize) -> isize
    decreases used - rel,
{
    if rel >= used {
        acc
    } else {
        let n = ring_len(b, rel);
        proof {
            lemma_ring_len(b, rel);
        }
        let next = tally(window(b, rel + 4, n as nat), acc);
        if rel + 4 + n >= used {
            next
        } else {
            packets(b, rel + 4 + n, used, next)
        }
    }
}

/// The score of a buffer's contents: a fault once freed; with complete
/// frames in the ring, the weights of their payloads; otherwise the weights
/// of the data written as a whole, a fault when there is none.
pub open spec fn evaluated(b: Buffer) -> Result<isize, Status> {
    if b.capacity == 0 {
        Err(Status::Fault)
    } else if b.commit > b.head {
        Ok(packets(b, 0, b.commit - b.head, 0))
    } else if b.bytes == 0 {
        Err(Status::Fault)
    } else {
        Ok(tally(b.storage@.subrange(0, b.bytes as int), 0))
    }
}

/// A frame length read from the ring fits in 32 bits.
pub proof fn lemma_ring_len(b: Buffer, rel: int)
    ensures
        0 <= ring_len(b, rel) <= 4294967295,
{
    let w = window(b, rel, 4);
    assert(0 <= w[0] <= 255 && 0 <= w[1] <= 255 && 0 <= w[2] <= 255 && 0 <= w[3] <= 255);
}

/// Display name of the engine on each platform.
pub open spec fn engine_of(b: Backend) -> Seq<char> {
    match b {
        Backend::Cuda => "NVIDIA CUDA (cuda:0) Native Hardware Engine"@,
        Backend::Metal => "Apple Metal Native GPU Adapter"@,
        Backend::Opencl => "OpenCL Hardware GPU Engine"@,
        Backend::Wgpu => "WebGPU Compute Shaders Engine"@,
        Backend::Cpu => "CPU SIMD Vector Fallback Engine"@,
    }
}

/// Position `x` after head `h` on a ring of `c` slots, from the slot of `h`
/// and `x` modulo `c`.
proof fn lemma_ring(h: int, x: int, c: int)
    requires
        c > 0,
        h >= 0,
        x >= 0,
    ensures
        (h + x) % c == (if h % c + x % c < c {
            h % c + x % c
        } else {
            h % c + x % c - c
        }),
{
    vstd::arithmetic::div_mod::lemma_fundamental_div_mod(x, c);
    vstd::arithmetic::div_mod::lemma_mod_multiples_vanish(x / c, h + x % c, c);
    assert(h + x == c * (x / c) + (h + x % c));
    vstd::arithmetic::div_mod::lemma_fundamental_div_mod(h, c);
    let o = h % c;
    let r = x % c;
    let q = h / c;
    if o + r < c {
        assert(h == q * c + o) by {
            vstd::arithmetic::mul::lemma_mul_is_commutative(c, q);
        }
        vstd::arithmetic::div_mod::lemma_fundamental_div_mod_converse(h + r, c, q, o + r);
    } else {
        assert((q + 1) * c == q * c + c) by (nonlinear_arith);
        vstd::arithmetic::mul::lemma_mul_is_commutative(c, q);
        vstd::arithmetic::div_mod::lemma_fundamental_div_mod_converse(h + r, c, q + 1, o + r - c);
    }
}

/// The ring byte of `b` at offset `x` after its head.
fn ring_byte(b: &Buffer, base: usize, x: u128) -> (r: u8)
    requires
        b.wf(),
        b.capacity > 0,
        base == b.head % b.capacity,
    ensures
        r == b.slot(x as int),
{
    let cap = b.capacity;
    let q = (x % (cap as u128)) as usize;
    proof {
        lemma_ring(b.head as int, x as int, cap as int);
    }
    let p = if q < cap - base {
        base + q
    } else {
        q - (cap - base)
    };
    b.storage[p]
}

/// The weight of a byte.
fn weight(b: u8) -> (r: isize)
    ensures
        r == weight_of(b),
{
    match b % 8 {
        0 => 0,
        1 => 10,
        2 => 20,
        3 => 20,
        4 => 40,
        5 => 45,
        6 => 90,
        _ => 1000,
    }
}

impl Device {
    /// The device of the detected `backend`, with the name of the GPU
    /// adapter when a GPU context was set up: ready with a context, active
    /// without, nothing reserved.
    pub fn new(backend: Backend, adapter: Option<String>, unified: bool) -> (r: Self)
        ensures
            r.guard.wf(),
            r.guard.allocated == 0 && r.guard.peak == 0 && r.guard.count == 0,
            r.backend == backend,
            r.adapter == adapter,
            r.unified == unified,
            r.status == (if adapter is Some {
                Status::Ready
            } else {
                Status::Active
            }),
    {
        let status = if adapter.is_some() {
            Status::Ready
        } else {
            Status::Active
        };
        Self { guard: Guard::new(), backend, status, adapter, unified, pad: [0; 6] }
    }

    /// Name of the GPU adapter, or of the CPU engine without a GPU context.
    pub fn adapter_name(&self) -> (r: String)
        ensures
            r@ == (match self.adapter {
                Some(name) => name@,
                None => "CPU SIMD Vector Engine"@,
            }),
    {
        match &self.adapter {
            Some(name) => name.clone(),
            None => "CPU SIMD Vector Engine".to_owned(),
        }
    }

    /// The platform.
    pub fn backend(&self) -> (r: Backend)
        ensures
            r == self.backend,
    {
        self.backend
    }

    /// On a GPU, the status of its memory; on the CPU, the device's own.
    pub fn status(&self) -> (r: Status)
        ensures
            r == (if self.backend != Backend::Cpu {
                self.guard.status_of()
            } else {
                self.status
            }),
    {
        if self.backend.valid() {
            self.guard.status()
        } else {
            self.status
        }
    }

    /// The memory accounting.
    pub fn guard(&self) -> (r: &Guard)
        ensures
            *r == self.guard,
    {
        &self.guard
    }

    /// Whether the device shares memory between host and device.
    pub fn unified(&self) -> (r: bool)
        ensures
            r == self.unified,
    {
        self.unified
    }

    /// A buffer of `bytes` bytes, reserved against the memory limits first
    /// and given back when the memory cannot be had; on the device unless on
    /// the CPU.
    pub fn allocate(&mut self, bytes: usize) -> (r: Result<Buffer, Status>)
        requires
            old(self).guard.wf(),
        ensures
            final(self).guard.wf(),
            final(self).backend == old(self).backend && final(self).status == old(self).status
                && final(self).adapter == old(self).adapter && final(self).unified == old(
                self,
            ).unified,
            bytes == 0 ==> r == Err::<Buffer, Status>(Status::Fault) && final(self).guard == old(
                self,
            ).guard,
            bytes > 0 && reserved(old(self).guard, bytes).1 is Err ==> r == Err::<Buffer, Status>(
                reserved(old(self).guard, bytes).1->Err_0,
            ) && final(self).guard == old(self).guard,
            match r {
                Ok(b) => {
                    &&& bytes > 0
                    &&& final(self).guard == reserved(old(self).guard, bytes).0
                    &&& b.wf()
                    &&& b.capacity >= bytes && b.bytes == bytes
                    &&& b.head == 0 && b.tail == 0 && b.commit == 0
                    &&& b.device == (old(self).backend != Backend::Cpu)
                    &&& b.shared == (old(self).unified && old(self).backend != Backend::Cpu)
                },
                Err(e) => bytes > 0 && reserved(old(self).guard, bytes).1 is Ok ==> final(self).guard
                    == released(reserved(old(self).guard, bytes).0, bytes) && (e == Status::Fault
                    || e == Status::Exhausted),
            },
    {
        if bytes == 0 {
            return Err(Status::Fault);
        }
        let device = self.backend.valid();
        match self.guard.reserve(bytes) {
            Ok(_) => {},
            Err(e) => {
                return Err(e);
            },
        }
        match Buffer::allocate(bytes, device, self.unified) {
            Ok(buf) => Ok(buf),
            Err(err) => {
                self.guard.release(bytes);
                Err(err)
            },
        }
    }

    /// Frees `buffer` and gives its data bytes back to the accounting;
    /// nothing when it holds no data.
    pub fn free(&mut self, buffer: &mut Buffer) -> (r: Result<(), Status>)
        requires
            old(buffer).wf(),
        ensures
            r is Ok,
            final(buffer).wf(),
            final(self).backend == old(self).backend && final(self).status == old(self).status
                && final(self).adapter == old(self).adapter && final(self).unified == old(
                self,
            ).unified,
            old(buffer).bytes == 0 ==> *final(buffer) == *old(buffer) && final(self).guard == old(
                self,
            ).guard,
            old(buffer).bytes > 0 ==> final(buffer).capacity == 0 && final(buffer).bytes == 0
                && final(self).guard == released(old(self).guard, old(buffer).bytes),
    {
        let bytes = buffer.bytes();
        if bytes > 0 {
            buffer.free();
            self.guard.release(bytes);
        }
        Ok(())
    }

    /// Back to a fresh device on the same hardware: nothing reserved.
    pub fn reset(&mut self) -> (r: Result<(), Status>)
        ensures
            r is Ok,
            final(self).guard.wf(),
            final(self).guard.allocated == 0 && final(self).guard.peak == 0
                && final(self).guard.count == 0,
            final(self).backend == old(self).backend && final(self).adapter == old(self).adapter
                && final(self).unified == old(self).unified,
            final(self).status == (if old(self).adapter is Some {
                Status::Ready
            } else {
                Status::Active
            }),
    {
        self.guard = Guard::new();
        self.status = if self.adapter.is_some() {
            Status::Ready
        } else {
            Status::Active
        };
        Ok(())
    }

    /// Appends the frame of `batch` to the ring of `buffer`.
    pub fn queue(&self, buffer: &mut Buffer, batch: &[u8]) -> (r: Result<(), Status>)
        requires
            old(buffer).wf(),
        ensures
            final(buffer).wf(),
            r == super::buffer::pushed(*old(buffer), batch@.len()),
            r is Err ==> *final(buffer) == *old(buffer),
            r is Ok ==> final(buffer).pending() == old(buffer).pending() + super::buffer::frame(
                batch@,
            ),
    {
        buffer.push(batch)
    }

    /// Scores the contents of `buffer` by the weights of their bytes.
    pub fn eval(&self, buffer: &Buffer) -> (r: Result<isize, Status>)
        requires
            buffer.wf(),
        ensures
            r == evaluated(*buffer),
    {
        if buffer.capacity == 0 {
            return Err(Status::Fault);
        }
        let head = buffer.head;
        let commit = buffer.commit;
        let mut score: isize = 0;
        if commit > head {
            let cap = buffer.capacity;
            let used = (commit - head) as u128;
            let base = head % cap;
            let mut rel: u128 = 0;
            while rel < used
                invariant
                    buffer.wf(),
                    cap == buffer.capacity,
                    cap > 0,
                    base == buffer.head % cap,
                    used == buffer.commit - buffer.head,
                    used <= usize::MAX,
                    rel <= used + 4294967299,
                    packets(*buffer, 0, used as int, 0) == packets(*buffer, rel as int, used as int, score),
                decreases used + 4294967299 - rel,
            {
                let mut header: Vec<u8> = Vec::new();
                let mut j: u128 = 0;
                while j < 4
                    invariant
                        buffer.wf(),
                        cap == buffer.capacity,
                        cap > 0,
                        base == buffer.head % cap,
                        rel < used <= usize::MAX,
                        j <= 4,
                        header@ == window(*buffer, rel as int, j as nat),
                    decreases 4 - j,
                {
                    let byte = ring_byte(buffer, base, rel + j);
                    header.push(byte);
                    j += 1;
                    assert(header@ =~= window(*buffer, rel as int, j as nat));
                }
                let n = read32(header.as_slice(), 0) as u128;
                let ghost acc0 = score;
                let mut index: u128 = 0;
                while index < n
                    invariant
                        buffer.wf(),
                        cap == buffer.capacity,
                        cap > 0,
                        base == buffer.head % cap,
                        rel < used <= usize::MAX,
                        n <= 4294967295,
                        index <= n,
                        score == tally(window(*buffer, rel + 4, index as nat), acc0),
                    decreases n - index,
                {
                    let byte = ring_byte(buffer, base, rel + 4 + index);
                    let ghost before = window(*buffer, rel + 4, index as nat);
                    score = score.wrapping_add(weight(byte));
                    index += 1;
                    assert(window(*buffer, rel + 4, index as nat) =~= before.push(byte));
                    assert(window(*buffer, rel + 4, index as nat).drop_last() =~= before);
                }
                rel = rel + 4 + n;
            }
        } else {
            let len = buffer.bytes;
            if len == 0 {
                return Err(Status::Fault);
            }
            let mut index: usize = 0;
            while index < len
                invariant
                    buffer.wf(),
                    len == buffer.bytes,
                    index <= len,
                    score == tally(buffer.storage@.subrange(0, index as int), 0),
                decreases len - index,
            {
                let byte = buffer.storage[index];
                let ghost before = buffer.storage@.subrange(0, index as int);
                score = score.wrapping_add(weight(byte));
                index += 1;
                assert(buffer.storage@.subrange(0, index as int).drop_last() =~= before);
            }
        }
        Ok(score)
    }

    /// Whether the platform is a hardware GPU.
    pub fn kernel(&self) -> (r: bool)
        ensures
            r == (self.backend != Backend::Cpu),
    {
        self.backend.hardware()
    }

    /// Whether `count` positions make a batch the GPU takes: 1 to 16384.
    pub fn batch(&self, count: usize) -> (r: bool)
        ensures
            r == (0 < count <= 16384),
    {
        count > 0 && count <= 16384
    }
}

impl Queryable for Device {
    fn name(&self) -> (r: &'static str)
        ensures
            r@ == engine_of(self.backend),
    {
        match self.backend {
            Backend::Cuda => "NVIDIA CUDA (cuda:0) Native Hardware Engine",
            Backend::Metal => "Apple Metal Native GPU Adapter",
            Backend::Opencl => "OpenCL Hardware GPU Engine",
            Backend::Wgpu => "WebGPU Compute Shaders Engine",
            Backend::Cpu => "CPU SIMD Vector Fallback Engine",
        }
    }

    fn memory(&self) -> (r: usize)
        ensures
            r == self.guard.limit,
    {
        self.guard.limit()
    }

    fn active(&self) -> (r: bool)
        ensures
            r == (if self.backend != Backend::Cpu {
                self.guard.status_of()
            } else {
                self.status
            } != Status::Fault && (if self.backend != Backend::Cpu {
                self.guard.status_of()
            } else {
                self.status
            }) != Status::Fail),
    {
        self.status().valid()
    }
}

} // verus!
