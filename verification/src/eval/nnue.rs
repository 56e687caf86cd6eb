//! The network's forward pass: both accumulator halves clipped to bytes
//! (side to move first), a 512 -> 32 affine layer, a clip to bytes and a
//! 32 -> 1 output layer scaled down, times four.
use vstd::prelude::*;
use super::accum::Accum;
use super::weight::{Weight, DIM};

verus! {

/// Width of one accumulator half.
pub const HALF: usize = DIM;
/// Width of both halves together.
pub const BOTH: usize = 512;

/// Sum of `a[i] * b[i]` over the first `n` entries.
pub open spec fn dot16(a: Seq<i16>, b: Seq<i8>, n: int) -> int
    decreases n,
{
    if n <= 0 {
        0
    } else {
        dot16(a, b, n - 1) + a[n - 1] * b[n - 1]
    }
}

/// Sum of `a[i] * b[i]` over the first `n` entries.
pub open spec fn dot8(a: Seq<i8>, b: Seq<i8>, n: int) -> int
    decreases n,
{
    if n <= 0 {
        0
    } else {
        dot8(a, b, n - 1) + a[n - 1] * b[n - 1]
    }
}

/// Division rounding toward zero, as Rust's `/` on integers.
pub open spec fn tdiv(a: int, b: int) -> int {
    if a >= 0 {
        if b > 0 {
            a / b
        } else {
            -(a / -b)
        }
    } else {
        if b > 0 {
            -((-a) / b)
        } else {
            (-a) / (-b)
        }
    }
}

/// `a / b` rounding toward zero, as Rust's `/` on `i32` computes it.
pub(crate) fn tdiv32(a: i32, b: i32) -> (r: i32)
    requires
        b != 0,
        !(a == i32::MIN && b == -1),
    ensures
        r == tdiv(a as int, b as int),
{
    let x = a as i64;
    let y = b as i64;
    let ax: i64 = if x >= 0 {
        x
    } else {
        -x
    };
    let ay: i64 = if y >= 0 {
        y
    } else {
        -y
    };
    let q = ax / ay;
    assert(0 <= q <= ax) by (nonlinear_arith)
        requires
            ax >= 0,
            ay >= 1,
            q == ax / ay,
    ;
    assert(x < 0 && y < 0 ==> q <= 0x8000_0000 - 1) by (nonlinear_arith)
        requires
            ax <= 0x8000_0000,
            ay >= 1,
            q == ax / ay,
            x == a,
            y == b,
            !(a == i32::MIN && b == -1),
            ax == (if x >= 0 { x as int } else { -x }),
            ay == (if y >= 0 { y as int } else { -y }),
    ;
    if (x >= 0) == (y > 0) {
        q as i32
    } else {
        (-q) as i32
    }
}

/// Whether `x` fits in an `i32`.
pub open spec fn fits32(x: int) -> bool {
    -0x8000_0000 <= x <= 0x7fff_ffff
}

/// Dot products.
pub struct Simd;

impl Simd {
    /// The dot product of 16-bit inputs with byte weights.
    pub fn dot(input: &[i16], weight: &[i8]) -> (r: i32)
        requires
            input@.len() == weight@.len(),
            input@.len() <= 0x1_0000_0000,
            fits32(dot16(input@, weight@, input@.len() as int)),
        ensures
            r == dot16(input@, weight@, input@.len() as int),
    {
        let n = input.len();
        let mut sum: i64 = 0;
        let mut i: usize = 0;
        while i < n
            invariant
                n == input@.len(),
                n == weight@.len(),
                n <= 0x1_0000_0000,
                i <= n,
                sum == dot16(input@, weight@, i as int),
                -0x40_0000 * i <= sum <= 0x40_0000 * i,
            decreases n - i,
        {
            let a = input[i] as i64;
            let b = weight[i] as i64;
            assert(-0x40_0000 <= a * b <= 0x40_0000) by (nonlinear_arith)
                requires
                    -32768 <= a <= 32767,
                    -128 <= b <= 127,
            ;
            sum = sum + a * b;
            i += 1;
        }
        sum as i32
    }

    /// The dot product of two byte vectors.
    pub fn bytes(input: &[i8], weight: &[i8]) -> (r: i32)
        requires
            input@.len() == weight@.len(),
            input@.len() <= 0x1_0000,
        ensures
            r == dot8(input@, weight@, input@.len() as int),
    {
        let n = input.len();
        let mut sum: i32 = 0;
        let mut i: usize = 0;
        while i < n
            invariant
                n == input@.len(),
                n == weight@.len(),
                n <= 0x1_0000,
                i <= n,
                sum == dot8(input@, weight@, i as int),
                -0x4000 * i <= sum <= 0x4000 * i,
            decreases n - i,
        {
            let a = input[i] as i32;
            let b = weight[i] as i32;
            assert(-0x4000 <= a * b <= 0x4000) by (nonlinear_arith)
                requires
                    -128 <= a <= 127,
                    -128 <= b <= 127,
            ;
            sum = sum + a * b;
            i += 1;
        }
        sum
    }

    /// The dot product of 16-bit inputs with byte weights, computed without
    /// vector instructions; the same value as `dot`.
    pub fn scalar(input: &[i16], weight: &[i8]) -> (r: i32)
        requires
            input@.len() == weight@.len(),
            input@.len() <= 0x1_0000_0000,
            fits32(dot16(input@, weight@, input@.len() as int)),
        ensures
            r == dot16(input@, weight@, input@.len() as int),
    {
        Self::dot(input, weight)
    }
}

/// `val` clamped to `[min, max]` and truncated to a byte.
pub open spec fn clamp_of(val: i16, min: i16, max: i16) -> i8 {
    if val < min {
        min as i8
    } else if val > max {
        max as i8
    } else {
        val as i8
    }
}

/// Clipped linear activation.
pub struct Clip;

impl Clip {
    /// `val` clamped to `[min, max]` and truncated to a byte.
    pub fn clamp(val: i16, min: i16, max: i16) -> (r: i8)
        ensures
            r == clamp_of(val, min, max),
    {
        if val < min {
            min as i8
        } else if val > max {
            max as i8
        } else {
            val as i8
        }
    }
}

/// The squared clipped activation: `val` clamped to `[0, max]`, squared,
/// divided by `scale` (rounding toward zero), capped at 127 and truncated
/// to a byte.
pub open spec fn sculu_of(val: i16, max: i16, scale: i32) -> i8 {
    let c: int = if val < 0 {
        0
    } else if val > max {
        max as int
    } else {
        val as int
    };
    let s = tdiv(c * c, scale as int);
    if s > 127 {
        127
    } else {
        s as i8
    }
}

/// Squared clipped activation.
pub struct Sculu;

impl Sculu {
    /// The squared clipped activation of `val`.
    pub fn active(val: i16, max: i16, scale: i32) -> (r: i8)
        requires
            scale != 0,
        ensures
            r == sculu_of(val, max, scale),
    {
        let clamped: i32 = if val < 0 {
            0i32
        } else if val > max {
            max as i32
        } else {
            val as i32
        };
        assert(0 <= clamped * clamped <= 32768 * 32768) by (nonlinear_arith)
            requires
                -32768 <= clamped <= 32767,
        ;
        let squared = clamped * clamped;
        let scaled = tdiv32(squared, scale);
        if scaled > 127 {
            127i8
        } else {
            scaled as i8
        }
    }
}

/// The clipped input of the affine layer: the side to move's half `us`,
/// then the other half `them`, each entry clamped to `[0, 127]`.
pub open spec fn transform_of(us: Seq<i16>, them: Seq<i16>) -> Seq<i8> {
    Seq::new(
        512,
        |i: int|
            if i < 256 {
                clamp_of(us[i], 0, 127)
            } else {
                clamp_of(them[i - 256], 0, 127)
            },
    )
}

/// The clipped accumulator, 512 bytes.
#[derive(Clone, Debug)]
pub struct Transform {
    /// The clipped entries.
    pub active: [i8; BOTH],
}

impl Transform {
    /// All zero.
    pub fn new() -> (r: Self)
        ensures
            forall|i: int| 0 <= i < 512 ==> #[trigger] r.active[i] == 0,
    {
        Self { active: [0; BOTH] }
    }

    /// Clamps `src` into `dst[offset..offset + 256]`.
    fn pack(src: &[i16; HALF], dst: &mut [i8; BOTH], offset: usize)
        requires
            offset == 0 || offset == 256,
        ensures
            forall|i: int| 0 <= i < 256 ==> #[trigger] final(dst)@[offset + i] == clamp_of(src@[i], 0, 127),
            forall|i: int| 0 <= i < 512 && !(offset <= i < offset + 256) ==> #[trigger] final(dst)@[i] == old(dst)@[i],
    {
        let mut idx: usize = 0;
        while idx < HALF
            invariant
                offset == 0 || offset == 256,
                idx <= 256,
                forall|i: int| 0 <= i < idx ==> #[trigger] dst@[offset + i] == clamp_of(src@[i], 0, 127),
                forall|i: int| 0 <= i < 512 && !(offset <= i < offset + idx) ==> #[trigger] dst@[i] == old(dst)@[i],
            decreases 256 - idx,
        {
            dst[offset + idx] = Clip::clamp(src[idx], 0, 127);
            idx += 1;
        }
    }

    /// Fills the entries from the two halves, the side to move's first.
    pub fn active(&mut self, red: &[i16; HALF], black: &[i16; HALF], side: u8)
        ensures
            final(self).active@ == if side == 0 {
                transform_of(red@, black@)
            } else {
                transform_of(black@, red@)
            },
    {
        let (us, them) = if side == 0 {
            (red, black)
        } else {
            (black, red)
        };
        let mut out = self.active;
        Self::pack(us, &mut out, 0);
        Self::pack(them, &mut out, 256);
        assert forall|i: int| 0 <= i < 512 implies #[trigger] out@[i] == transform_of(us@, them@)[i] by {
            if i < 256 {
                assert(out@[0 + i] == clamp_of(us@[i], 0, 127));
            } else {
                let j = i - 256;
                assert(out@[256 + j] == clamp_of(them@[j], 0, 127));
            }
        }
        assert(out@ =~= transform_of(us@, them@));
        self.active = out;
    }
}

impl Default for Transform {
    /// All zero.
    fn default() -> (r: Self)
        ensures
            forall|i: int| 0 <= i < 512 ==> #[trigger] r.active[i] == 0,
    {
        Self::new()
    }
}

/// The output of an affine layer `weight * input + bias`, entry by entry.
pub open spec fn affine_of<const IN: usize, const OUT: usize>(a: Affine<IN, OUT>, input: Seq<i8>) -> Seq<int> {
    Seq::new(OUT as nat, |o: int| a.bias[o] + dot8(input, a.weight[o]@, IN as int))
}

/// A fully connected layer from `IN` bytes to `OUT` 32-bit sums.
#[derive(Clone, Copy, Debug)]
pub struct Affine<const IN: usize, const OUT: usize> {
    /// One weight row per output.
    pub weight: [[i8; IN]; OUT],
    /// One bias per output.
    pub bias: [i32; OUT],
}

impl<const IN: usize, const OUT: usize> Affine<IN, OUT> {
    /// All weights and biases zero.
    pub fn new() -> (r: Self)
        ensures
            forall|o: int| 0 <= o < OUT ==> #[trigger] r.bias[o] == 0,
            forall|o: int, i: int| 0 <= o < OUT && 0 <= i < IN ==> #[trigger] r.weight[o][i] == 0,
    {
        Self { weight: [[0; IN]; OUT], bias: [0; OUT] }
    }

    /// `output[o] = bias[o] + weight[o] . input` for every output.
    pub fn forward(&self, input: &[i8; IN], output: &mut [i32; OUT])
        requires
            IN <= 0x1_0000,
            forall|o: int| 0 <= o < OUT ==> fits32(#[trigger] affine_of(*self, input@)[o]),
        ensures
            forall|o: int| 0 <= o < OUT ==> #[trigger] final(output)@[o] == affine_of(*self, input@)[o],
    {
        let mut o: usize = 0;
        while o < OUT
            invariant
                IN <= 0x1_0000,
                o <= OUT,
                forall|k: int| 0 <= k < OUT ==> fits32(#[trigger] affine_of(*self, input@)[k]),
                forall|k: int| 0 <= k < o ==> #[trigger] output@[k] == affine_of(*self, input@)[k],
            decreases OUT - o,
        {
            let row = &self.weight[o];
            let d = Simd::bytes(input, row);
            assert(affine_of(*self, input@)[o as int] == self.bias[o as int] + d);
            output[o] = self.bias[o] + d;
            o += 1;
        }
    }
}

impl<const IN: usize, const OUT: usize> Default for Affine<IN, OUT> {
    /// All zero.
    fn default() -> (r: Self)
        ensures
            forall|o: int| 0 <= o < OUT ==> #[trigger] r.bias[o] == 0,
    {
        Self::new()
    }
}

/// The score of an output layer for `input`: `bias + weight . input`,
/// divided by `scale` (rounding toward zero) unless `scale` is 0.
pub open spec fn output_of<const IN: usize>(out: Output<IN>, input: Seq<i8>) -> int {
    let sum = out.bias + dot8(input, out.weight@, IN as int);
    if out.scale != 0 {
        tdiv(sum, out.scale as int)
    } else {
        sum
    }
}

/// The output layer from `IN` bytes to one score.
#[derive(Clone, Debug)]
pub struct Output<const IN: usize> {
    /// Weights.
    pub weight: [i8; IN],
    /// Bias.
    pub bias: i32,
    /// Divisor of the sum.
    pub scale: i32,
}

impl<const IN: usize> Output<IN> {
    /// Zero weights and bias, divisor `scale`.
    pub fn new(scale: i32) -> (r: Self)
        ensures
            r.bias == 0 && r.scale == scale,
            forall|i: int| 0 <= i < IN ==> #[trigger] r.weight[i] == 0,
    {
        Self { weight: [0; IN], bias: 0, scale }
    }

    /// The score of `input`.
    pub fn evaluate(&self, input: &[i8; IN]) -> (r: i32)
        requires
            IN <= 0x1_0000,
            fits32(self.bias + dot8(input@, self.weight@, IN as int)),
            fits32(output_of(*self, input@)),
        ensures
            r == output_of(*self, input@),
    {
        let d = Simd::bytes(input, &self.weight);
        let sum = self.bias + d;
        if self.scale != 0 {
            tdiv32(sum, self.scale)
        } else {
            sum
        }
    }
}

impl<const IN: usize> Default for Output<IN> {
    /// Divisor 16.
    fn default() -> (r: Self)
        ensures
            r.bias == 0 && r.scale == 16,
    {
        Self::new(16)
    }
}

/// `x` clamped to `[0, 127]`.
pub open spec fn clip_of(x: int) -> i8 {
    if x < 0 {
        0
    } else if x > 127 {
        127
    } else {
        x as i8
    }
}

/// The clipped input of the network: the side to move's half first.
pub open spec fn input_of(accum: Accum, side: u8) -> Seq<i8> {
    if side == 0 {
        transform_of(accum.vals[0]@, accum.vals[1]@)
    } else {
        transform_of(accum.vals[1]@, accum.vals[0]@)
    }
}

/// The network's score for accumulator `accum` with `side` to move.
pub open spec fn score_of(n: Nnue, accum: Accum, side: u8) -> int {
    let input = input_of(accum, side);
    let hidden = affine_of(*n.affine, input);
    let layer = Seq::new(32, |i: int| clip_of(hidden[i]));
    output_of(n.output, layer) * 4
}

/// Every intermediate sum of the forward pass fits in an `i32`.
pub open spec fn score_fits(n: Nnue, accum: Accum, side: u8) -> bool {
    let input = input_of(accum, side);
    let hidden = affine_of(*n.affine, input);
    let layer = Seq::new(32, |i: int| clip_of(hidden[i]));
    &&& forall|o: int| 0 <= o < 32 ==> fits32(#[trigger] hidden[o])
    &&& fits32(n.output.bias + dot8(layer, n.output.weight@, 32))
    &&& fits32(output_of(n.output, layer))
    &&& fits32(score_of(n, accum, side))
}

/// The network.
#[derive(Clone, Debug)]
pub struct Nnue {
    /// Accumulator weights.
    pub weight: Weight,
    /// Hidden layer.
    pub affine: Box<Affine<BOTH, 32>>,
    /// Output layer.
    pub output: Output<32>,
    /// Whether weights were loaded.
    pub loaded: bool,
}

impl Nnue {
    /// A network with zero weights, output divisor 16, not loaded.
    pub fn new() -> (r: Self)
        ensures
            !r.loaded,
            r.output.scale == 16 && r.output.bias == 0,
            forall|i: int| 0 <= i < 256 ==> #[trigger] r.weight.bias[i] == 0,
    {
        Self { weight: Weight::new(), affine: Box::new(Affine::new()), output: Output::new(16), loaded: false }
    }

    /// The score of `accum` with `side` to move.
    pub fn evaluate(&self, accum: &Accum, side: u8) -> (r: i32)
        requires
            score_fits(*self, *accum, side),
        ensures
            r == score_of(*self, *accum, side),
    {
        let mut transform = Transform::new();
        transform.active(&accum.vals[0], &accum.vals[1], side);
        let mut hidden = [0i32; 32];
        let ghost input = input_of(*accum, side);
        assert(transform.active@ == input);
        assert forall|o: int| 0 <= o < 32 implies fits32(#[trigger] affine_of(*self.affine, transform.active@)[o]) by {
            assert(fits32(affine_of(*self.affine, input)[o]));
        }
        self.affine.forward(&transform.active, &mut hidden);
        let mut layer = [0i8; 32];
        Self::clip32(&hidden, &mut layer);
        let ghost input = transform.active@;
        let ghost h = affine_of(*self.affine, input);
        assert(layer@ =~= Seq::new(32, |i: int| clip_of(h[i])));
        let out = self.output.evaluate(&layer);
        out * 4
    }

    /// Clamps each of 32 sums to `[0, 127]`.
    fn clip32(src: &[i32; 32], dst: &mut [i8; 32])
        ensures
            forall|i: int| 0 <= i < 32 ==> #[trigger] final(dst)@[i] == clip_of(src@[i] as int),
    {
        let mut i: usize = 0;
        while i < 32
            invariant
                i <= 32,
                forall|k: int| 0 <= k < i ==> #[trigger] dst@[k] == clip_of(src@[k] as int),
            decreases 32 - i,
        {
            let val = src[i];
            dst[i] = if val < 0 {
                0i8
            } else if val > 127 {
                127i8
            } else {
                val as i8
            };
            i += 1;
        }
    }
}

impl Default for Nnue {
    /// A new network.
    fn default() -> (r: Self)
        ensures
            !r.loaded,
    {
        Self::new()
    }
}

/// Why network weight bytes were refused.
#[derive(Clone, Copy, Debug, PartialEq, Eq, Structural)]
pub enum NetFault {
    /// The bytes end before a value does.
    Truncated,
    /// The magic bytes are not `XRNN`.
    Magic,
    /// The version is not 1.
    Version,
}

/// Offset of the accumulator bias in a weight file.
pub const BIAS_AT: usize = 8;
/// Offset of the skipped feature rows.
pub const ROWS_AT: usize = 520;
/// Offset of the hidden layer's weights.
pub const HIDDEN_AT: usize = 33554952;
/// Offset of the hidden layer's biases.
pub const HIDDEN_BIAS_AT: usize = 33571336;
/// Offset of the output weights.
pub const OUTPUT_AT: usize = 33571464;
/// Offset of the output bias.
pub const OUTPUT_BIAS_AT: usize = 33571496;
/// Offset of the output divisor.
pub const SCALE_AT: usize = 33571500;
/// Length of a complete weight file.
pub const NET_LEN: usize = 33571504;

/// Little-endian signed 16-bit value at `at`.
pub open spec fn sle16(b: Seq<u8>, at: int) -> i16 {
    let u = b[at] + 256 * b[at + 1];
    if u >= 32768 {
        (u - 65536) as i16
    } else {
        u as i16
    }
}

/// Little-endian signed 32-bit value at `at`.
pub open spec fn sle32(b: Seq<u8>, at: int) -> i32 {
    let u = b[at] + 256 * b[at + 1] + 65536 * b[at + 2] + 16777216 * b[at + 3];
    if u >= 0x8000_0000 {
        (u - 0x1_0000_0000) as i32
    } else {
        u as i32
    }
}

/// The byte at `at` as a signed byte.
pub open spec fn s8(b: Seq<u8>, at: int) -> i8 {
    if b[at] >= 128 {
        (b[at] - 256) as i8
    } else {
        b[at] as i8
    }
}

/// Whether the header of weight bytes is readable and right: at least
/// eight bytes, magic `XRNN`, version 1.
pub open spec fn header_ok(b: Seq<u8>) -> bool {
    b.len() >= 8 && b[0] == 88 && b[1] == 82 && b[2] == 78 && b[3] == 78 && b[4] + 256 * b[5]
        + 65536 * b[6] + 16777216 * b[7] == 1
}

/// What reading weight bytes `b` returns.
pub open spec fn read_result(b: Seq<u8>) -> Result<(), NetFault> {
    if b.len() < 4 {
        Err(NetFault::Truncated)
    } else if !(b[0] == 88 && b[1] == 82 && b[2] == 78 && b[3] == 78) {
        Err(NetFault::Magic)
    } else if b.len() < 8 {
        Err(NetFault::Truncated)
    } else if !header_ok(b) {
        Err(NetFault::Version)
    } else if b.len() < NET_LEN {
        Err(NetFault::Truncated)
    } else {
        Ok(())
    }
}

/// The network after reading weight bytes `b` into `n`: with a good header,
/// every value whose bytes are all present is read, in file order, and the
/// rest keep their old values; the network counts as loaded only when the
/// whole file is there. With a bad header nothing changes.
pub open spec fn read_into(n: Nnue, m: Nnue, b: Seq<u8>) -> bool {
    if !header_ok(b) {
        m == n
    } else {
        &&& forall|j: int| 0 <= j < 256 ==> #[trigger] m.weight.bias[j] == if BIAS_AT + 2 * j + 2 <= b.len() {
            sle16(b, BIAS_AT + 2 * j)
        } else {
            n.weight.bias[j]
        }
        &&& forall|i: int, j: int| 0 <= i < 32 && 0 <= j < 512 ==> #[trigger] m.affine.weight[i][j] == if HIDDEN_AT + 512 * i + j + 1 <= b.len() {
            s8(b, HIDDEN_AT + 512 * i + j)
        } else {
            n.affine.weight[i][j]
        }
        &&& forall|i: int| 0 <= i < 32 ==> #[trigger] m.affine.bias[i] == if HIDDEN_BIAS_AT + 4 * i + 4 <= b.len() {
            sle32(b, HIDDEN_BIAS_AT + 4 * i)
        } else {
            n.affine.bias[i]
        }
        &&& forall|i: int| 0 <= i < 32 ==> #[trigger] m.output.weight[i] == if OUTPUT_AT + i + 1 <= b.len() {
            s8(b, OUTPUT_AT + i)
        } else {
            n.output.weight[i]
        }
        &&& m.output.bias == if OUTPUT_BIAS_AT + 4 <= b.len() {
            sle32(b, OUTPUT_BIAS_AT as int)
        } else {
            n.output.bias
        }
        &&& m.output.scale == if SCALE_AT + 4 <= b.len() {
            sle32(b, SCALE_AT as int)
        } else {
            n.output.scale
        }
        &&& m.loaded == if b.len() >= NET_LEN {
            true
        } else {
            n.loaded
        }
    }
}

fn read_i16(b: &[u8], at: usize) -> (r: i16)
    requires
        at + 2 <= b@.len(),
    ensures
        r == sle16(b@, at as int),
{
    let u = b[at] as u32 + 256 * (b[at + 1] as u32);
    if u >= 32768 {
        (u as i32 - 65536) as i16
    } else {
        u as i16
    }
}

fn read_i32(b: &[u8], at: usize) -> (r: i32)
    requires
        at + 4 <= b@.len(),
    ensures
        r == sle32(b@, at as int),
{
    let u = b[at] as u64 + 256 * (b[at + 1] as u64) + 65536 * (b[at + 2] as u64) + 16777216 * (b[at + 3] as u64);
    if u >= 0x8000_0000 {
        (u as i64 - 0x1_0000_0000) as i32
    } else {
        u as i32
    }
}

fn read_i8(b: &[u8], at: usize) -> (r: i8)
    requires
        at < b@.len(),
    ensures
        r == s8(b@, at as int),
{
    let v = b[at];
    if v >= 128 {
        (v as i16 - 256) as i8
    } else {
        v as i8
    }
}

impl Nnue {
    /// Reads network weights from the bytes of a weight file: magic `XRNN`,
    /// version 1, then the accumulator bias, the feature rows (skipped), the
    /// hidden layer's weights and biases and the output layer's weights,
    /// bias and divisor, all little-endian.
    pub fn read(&mut self, bytes: &[u8]) -> (r: Result<(), NetFault>)
        ensures
            r == read_result(bytes@),
            read_into(*old(self), *final(self), bytes@),
    {
        let n = bytes.len();
        if n < 4 {
            return Err(NetFault::Truncated);
        }
        if !(bytes[0] == 88 && bytes[1] == 82 && bytes[2] == 78 && bytes[3] == 78) {
            return Err(NetFault::Magic);
        }
        if n < 8 {
            return Err(NetFault::Truncated);
        }
        let ver = bytes[4] as u64 + 256 * (bytes[5] as u64) + 65536 * (bytes[6] as u64) + 16777216 * (bytes[7] as u64);
        if ver != 1 {
            return Err(NetFault::Version);
        }
        let ghost start = *self;
        let mut bias = self.weight.bias;
        let mut j: usize = 0;
        while j < 256
            invariant
                n == bytes@.len(),
                header_ok(bytes@),
                *self == start,
                start == *old(self),
                j <= 256,
                forall|k: int| 0 <= k < j ==> #[trigger] bias[k] == sle16(bytes@, BIAS_AT + 2 * k),
                forall|k: int| j <= k < 256 ==> #[trigger] bias[k] == start.weight.bias[k],
                8 + 2 * j <= n,
            decreases 256 - j,
        {
            if 8 + 2 * j + 2 > n {
                self.weight.bias = bias;
                assert forall|k: int| 0 <= k < 256 implies #[trigger] self.weight.bias[k] == if BIAS_AT + 2 * k + 2 <= n {
                    sle16(bytes@, BIAS_AT + 2 * k)
                } else {
                    start.weight.bias[k]
                } by {
                    assert(bias[k] == self.weight.bias[k]);
                }
                return Err(NetFault::Truncated);
            }
            bias[j] = read_i16(bytes, 8 + 2 * j);
            j += 1;
        }
        self.weight.bias = bias;
        if n < NET_LEN {
            return self.read_tail(bytes, Ghost(start));
        }
        let r = self.read_tail(bytes, Ghost(start));
        r
    }

    /// Reads what follows the feature rows, value by value, up to where the
    /// bytes end.
    fn read_tail(&mut self, bytes: &[u8], start: Ghost<Nnue>) -> (r: Result<(), NetFault>)
        requires
            header_ok(bytes@),
            bytes@.len() >= 520,
            forall|j: int| 0 <= j < 256 ==> #[trigger] old(self).weight.bias[j] == sle16(bytes@, BIAS_AT + 2 * j),
            old(self).affine == start@.affine,
            old(self).output == start@.output,
            old(self).loaded == start@.loaded,
        ensures
            r == read_result(bytes@),
            read_into(start@, *final(self), bytes@),
    {
        let n = bytes.len();
        let mut a: Affine<BOTH, 32> = *self.affine;
        let mut i: usize = 0;
        while i < 32
            invariant
                n == bytes@.len(),
                i <= 32,
                forall|x: int, y: int| 0 <= x < 32 && 0 <= y < 512 ==> #[trigger] a.weight[x][y] == if HIDDEN_AT + 512 * x + y + 1 <= n && x < i {
                    s8(bytes@, HIDDEN_AT + 512 * x + y)
                } else {
                    start@.affine.weight[x][y]
                },
                a.bias == start@.affine.bias,
            decreases 32 - i,
        {
            let mut row = a.weight[i];
            let mut jj: usize = 0;
            while jj < 512
                invariant
                    n == bytes@.len(),
                    i < 32,
                    jj <= 512,
                    forall|x: int, y: int| 0 <= x < 32 && 0 <= y < 512 ==> #[trigger] a.weight[x][y] == if HIDDEN_AT + 512 * x + y + 1 <= n && x < i {
                        s8(bytes@, HIDDEN_AT + 512 * x + y)
                    } else {
                        start@.affine.weight[x][y]
                    },
                    a.bias == start@.affine.bias,
                    forall|y: int| 0 <= y < 512 ==> #[trigger] row[y] == if HIDDEN_AT + 512 * i + y + 1 <= n && y < jj {
                        s8(bytes@, HIDDEN_AT + 512 * i + y)
                    } else {
                        start@.affine.weight[i as int][y]
                    },
                decreases 512 - jj,
            {
                let at = HIDDEN_AT + 512 * i + jj;
                if at < n {
                    row[jj] = read_i8(bytes, at);
                }
                jj += 1;
            }
            a.weight[i] = row;
            i += 1;
        }
        assert forall|x: int, y: int| 0 <= x < 32 && 0 <= y < 512 implies #[trigger] a.weight[x][y] == if HIDDEN_AT + 512 * x + y + 1 <= n {
            s8(bytes@, HIDDEN_AT + 512 * x + y)
        } else {
            start@.affine.weight[x][y]
        } by {
        }
        let mut o: usize = 0;
        while o < 32
            invariant
                n == bytes@.len(),
                o <= 32,
                forall|x: int, y: int| 0 <= x < 32 && 0 <= y < 512 ==> #[trigger] a.weight[x][y] == if HIDDEN_AT + 512 * x + y + 1 <= n {
                    s8(bytes@, HIDDEN_AT + 512 * x + y)
                } else {
                    start@.affine.weight[x][y]
                },
                forall|x: int| 0 <= x < 32 ==> #[trigger] a.bias[x] == if HIDDEN_BIAS_AT + 4 * x + 4 <= n && x < o {
                    sle32(bytes@, HIDDEN_BIAS_AT + 4 * x)
                } else {
                    start@.affine.bias[x]
                },
            decreases 32 - o,
        {
            let at = HIDDEN_BIAS_AT + 4 * o;
            if at + 4 <= n {
                a.bias[o] = read_i32(bytes, at);
            }
            o += 1;
        }
        self.affine = Box::new(a);
        assert forall|x: int, y: int| 0 <= x < 32 && 0 <= y < 512 implies #[trigger] self.affine.weight[x][y] == if HIDDEN_AT + 512 * x + y + 1 <= n {
            s8(bytes@, HIDDEN_AT + 512 * x + y)
        } else {
            start@.affine.weight[x][y]
        } by {
            assert(self.affine.weight[x][y] == a.weight[x][y]);
        }
        let mut w = self.output.weight;
        let mut k: usize = 0;
        while k < 32
            invariant
                n == bytes@.len(),
                k <= 32,
                forall|x: int| 0 <= x < 32 ==> #[trigger] w[x] == if OUTPUT_AT + x + 1 <= n && x < k {
                    s8(bytes@, OUTPUT_AT + x)
                } else {
                    start@.output.weight[x]
                },
            decreases 32 - k,
        {
            let at = OUTPUT_AT + k;
            if at < n {
                w[k] = read_i8(bytes, at);
            }
            k += 1;
        }
        self.output.weight = w;
        if OUTPUT_BIAS_AT + 4 <= n {
            self.output.bias = read_i32(bytes, OUTPUT_BIAS_AT);
        }
        if SCALE_AT + 4 <= n {
            self.output.scale = read_i32(bytes, SCALE_AT);
        }
        if n >= NET_LEN {
            self.loaded = true;
            Ok(())
        } else {
            Err(NetFault::Truncated)
        }
    }
}

} // verus!
