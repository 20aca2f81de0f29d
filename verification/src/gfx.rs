//! Indexed images: `N` bits of palette index per pixel, stored in a bit vector.

use vstd::prelude::*;
use bitvec::prelude::{BitVec, Lsb0};

verus! {

/// A `bitvec` bit vector over bytes, least significant bit first.
#[verifier::external_body]
pub struct Bits {
    inner: BitVec<u8, Lsb0>,
}

/// The bits that a byte bit vector holds, in order.
pub uninterp spec fn bits(v: Bits) -> Seq<bool>;

/// The bits of `bytes`, least significant bit of each byte first.
pub open spec fn lsb0_bits(bytes: Seq<u8>) -> Seq<bool> {
    Seq::new(bytes.len() * 8, |i: int| (bytes[i / 8] >> ((i % 8) as u8)) & 1u8 == 1u8)
}

/// The bits of `bytes`, most significant bit of each byte first.
pub open spec fn msb0_bits(bytes: Seq<u8>) -> Seq<bool> {
    Seq::new(bytes.len() * 8, |i: int| (bytes[i / 8] >> ((7 - i % 8) as u8)) & 1u8 == 1u8)
}

/// The bits of `b` in the reverse order.
pub open spec fn reversed_byte(b: u8) -> u8 {
    ((b & 1u8) << 7u8) | ((b & 2u8) << 5u8) | ((b & 4u8) << 3u8) | ((b & 8u8) << 1u8) | ((b & 16u8)
        >> 1u8) | ((b & 32u8) >> 3u8) | ((b & 64u8) >> 5u8) | ((b & 128u8) >> 7u8)
}

/// Bit `k` of a reversed byte is bit `7 - k` of the byte.
proof fn lemma_reversed_byte(b: u8)
    by (bit_vector)
    ensures
        forall|k: u8| k < 8 ==> #[trigger] ((reversed_byte(b) >> k) & 1u8) == ((b >> ((7 - k) as u8)) & 1u8),
{
}

/// Each byte with its bits in the reverse order.
fn reverse_each_byte(bytes: Vec<u8>) -> (r: Vec<u8>)
    ensures
        r@.len() == bytes@.len(),
        lsb0_bits(r@) == msb0_bits(bytes@),
{
    let mut out: Vec<u8> = Vec::new();
    let mut j: usize = 0;
    while j < bytes.len()
        invariant
            j <= bytes@.len(),
            out@.len() == j,
            forall|i: int| 0 <= i < j ==> #[trigger] out@[i] == reversed_byte(bytes@[i]),
        decreases bytes@.len() - j,
    {
        let b = bytes[j];
        out.push(((b & 1) << 7) | ((b & 2) << 5) | ((b & 4) << 3) | ((b & 8) << 1) | ((b & 16) >> 1) | ((
        b & 32) >> 3) | ((b & 64) >> 5) | ((b & 128) >> 7));
        j = j + 1;
    }
    assert forall|i: int| 0 <= i < out@.len() * 8 implies #[trigger] lsb0_bits(out@)[i] == msb0_bits(bytes@)[i] by {
        let k = (i % 8) as u8;
        lemma_reversed_byte(bytes@[i / 8]);
        assert(((reversed_byte(bytes@[i / 8]) >> k) & 1u8) == ((bytes@[i / 8] >> ((7 - k) as u8)) & 1u8));
    }
    assert(lsb0_bits(out@) =~= msb0_bits(bytes@));
    out
}

/// The largest number of bits that a bit vector can span.
pub open spec fn max_bits() -> int {
    (usize::MAX >> 3usize) as int
}

/// Calls `BitVec::repeat`, which makes a bit vector of `len` copies of `bit`
/// and panics where `len` is more than it can span.
#[verifier::external_body]
fn bits_repeat(bit: bool, len: usize) -> (r: Bits)
    requires
        len <= max_bits(),
    ensures
        bits(r) == Seq::new(len as nat, |_i: int| bit),
{
    Bits { inner: BitVec::<u8, Lsb0>::repeat(bit, len) }
}

/// Calls `BitVec::from_vec`, which views the bytes as bits, least significant
/// bit first, and panics where they are more than it can span.
#[verifier::external_body]
fn bits_from_vec(bytes: Vec<u8>) -> (r: Bits)
    requires
        bytes@.len() * 8 <= max_bits(),
    ensures
        bits(r) == lsb0_bits(bytes@),
{
    Bits { inner: BitVec::<u8, Lsb0>::from_vec(bytes) }
}

/// Calls `BitVec::len`: the number of bits.
#[verifier::external_body]
fn bits_len(v: &Bits) -> (r: usize)
    ensures
        r == bits(*v).len(),
{
    v.inner.len()
}

/// Reads bit `index` through `BitSlice::get`, which is `Some` within bounds.
#[verifier::external_body]
fn bits_get(v: &Bits, index: usize) -> (r: bool)
    requires
        index < bits(*v).len(),
    ensures
        r == bits(*v)[index as int],
{
    match v.inner.get(index) {
        Some(b) => *b,
        None => false,
    }
}

/// Calls `BitSlice::set`, which writes bit `index` and panics out of bounds.
#[verifier::external_body]
fn bits_set(v: &mut Bits, index: usize, value: bool)
    requires
        index < bits(*old(v)).len(),
    ensures
        bits(*final(v)) == bits(*old(v)).update(index as int, value),
{
    v.inner.set(index, value)
}

/// Where bit `i` of a row of `width` bits lands when the row is reversed.
pub open spec fn mirrored_index(len: int, width: int, i: int) -> int {
    let row = i / width;
    let start = row * width;
    let end = if start + width <= len { start + width } else { len };
    start + (end - 1 - i)
}

/// Reverses the bits from `start` up to `end` in place, through
/// `BitSlice::reverse` on the range, which panics where the range lies
/// outside the bits.
#[verifier::external_body]
fn bits_reverse_range(v: &mut Bits, start: usize, end: usize)
    requires
        start <= end <= bits(*old(v)).len(),
    ensures
        bits(*final(v)).len() == bits(*old(v)).len(),
        forall|i: int|
            0 <= i < bits(*old(v)).len() ==> #[trigger] bits(*final(v))[i] == if start <= i < end {
                bits(*old(v))[start + end - 1 - i]
            } else {
                bits(*old(v))[i]
            },
{
    v.inner[start..end].reverse()
}

/// The number that `n` bits starting at `start` stand for, least significant first.
pub open spec fn bits_value(b: Seq<bool>, start: int, n: nat) -> nat
    decreases n,
{
    if n == 0 {
        0
    } else {
        (if b[start] {
            1nat
        } else {
            0nat
        }) + 2 * bits_value(b, start + 1, (n - 1) as nat)
    }
}

/// The bits `p` after the `n` bits from `start` on were set to the low bits of `c`.
pub open spec fn written_bits(p: Seq<bool>, start: int, n: int, c: u8) -> Seq<bool> {
    Seq::new(
        p.len(),
        |i: int|
            if start <= i < start + n {
                (c >> ((i - start) as u8)) & 1u8 == 1u8
            } else {
                p[i]
            },
    )
}

/// An indexed image with `N` bits per pixel, rows of `width` pixels.
pub struct Gfx<const N: usize> {
    pub data: Bits,
    pub width: usize,
    pub height: usize,
}

/// The first bit of pixel `(x, y)`, where it lies within `len` bits.
fn pixel_start(x: usize, y: usize, n: usize, width: usize, len: usize) -> (r: usize)
    requires
        y * n <= usize::MAX,
        x * n + y * n * width + n <= len,
    ensures
        r == x * n + y * n * width,
{
    assert(y * n * width >= 0) by (nonlinear_arith);
    assert(x * n >= 0) by (nonlinear_arith);
    let a = x * n;
    let b = y * n;
    a + b * width
}

impl<const N: usize> Gfx<N> {
    /// The bits of the image.
    pub open spec fn pixels(&self) -> Seq<bool> {
        bits(self.data)
    }

    /// The first bit of pixel `(x, y)`.
    pub open spec fn start_of(&self, x: int, y: int) -> int {
        x * N + y * N * self.width
    }

    /// Does pixel `(x, y)` lie within the bits?
    pub open spec fn holds(&self, x: int, y: int) -> bool {
        0 <= x && 0 <= y && y * N <= usize::MAX && self.start_of(x, y) + N <= self.pixels().len()
    }

    /// The color index of pixel `(x, y)`.
    pub open spec fn color_at(&self, x: int, y: int) -> nat {
        bits_value(self.pixels(), self.start_of(x, y), N as nat)
    }

    /// An image of the given size, every index zero.
    pub fn new(width: usize, height: usize) -> (r: Gfx<N>)
        requires
            width * height <= usize::MAX,
            width * height * N <= max_bits(),
        ensures
            r.width == width,
            r.height == height,
            r.pixels() == Seq::new((width * height * N) as nat, |_i: int| false),
    {
        Gfx { data: bits_repeat(false, width * height * N), width, height }
    }

    /// An image over the bits of `vec`, which must hold `width * height`
    /// pixels. With one bit per pixel the first pixel of each byte is its most
    /// significant bit, as in packed one bit images; wider pixels take the
    /// bits of each byte least significant first.
    pub fn from_vec(width: usize, height: usize, vec: Vec<u8>) -> (r: Gfx<N>)
        requires
            vec@.len() * 8 <= max_bits(),
            width * height * N <= vec@.len() * 8,
        ensures
            r.width == width,
            r.height == height,
            N == 1 ==> r.pixels() == msb0_bits(vec@),
            N != 1 ==> r.pixels() == lsb0_bits(vec@),
    {
        if N == 1 {
            let bytes = reverse_each_byte(vec);
            Gfx { data: bits_from_vec(bytes), width, height }
        } else {
            Gfx { data: bits_from_vec(vec), width, height }
        }
    }

    /// The color index of pixel `(x, y)`.
    pub fn get(&self, x: usize, y: usize) -> (r: u8)
        requires
            N <= 8,
            self.holds(x as int, y as int),
        ensures
            r == self.color_at(x as int, y as int),
    {
        let len = bits_len(&self.data);
        let start = pixel_start(x, y, N, self.width, len);
        let mut result: u8 = 0;
        let mut k: usize = N;
        while k > 0
            invariant
                k <= N <= 8,
                start == self.start_of(x as int, y as int),
                start + N <= self.pixels().len(),
                len == self.pixels().len(),
                result == bits_value(self.pixels(), start + k, (N - k) as nat),
                result < pow2_nat((N - k) as nat),
            decreases k,
        {
            k = k - 1;
            let bit = bits_get(&self.data, start + k);
            proof {
                lemma_pow2_step((N - k - 1) as nat);
                assert(bits_value(self.pixels(), start + k, (N - k) as nat) == (if bit {
                    1nat
                } else {
                    0nat
                }) + 2 * bits_value(self.pixels(), start + k + 1, (N - k - 1) as nat));
                lemma_pow2_le_256((N - k) as nat);
            }
            result = result * 2 + if bit {
                1
            } else {
                0
            };
        }
        result
    }

    /// Write the low `N` bits of `color_index` into pixel `(x, y)`.
    pub fn set(&mut self, x: usize, y: usize, color_index: u8)
        requires
            N <= 8,
            old(self).holds(x as int, y as int),
        ensures
            final(self).width == old(self).width,
            final(self).height == old(self).height,
            final(self).pixels() == written_bits(
                old(self).pixels(),
                old(self).start_of(x as int, y as int),
                N as int,
                color_index,
            ),
    {
        let len = bits_len(&self.data);
        let start = pixel_start(x, y, N, self.width, len);
        let ghost before = self.pixels();
        let mut k: usize = 0;
        while k < N
            invariant
                k <= N <= 8,
                start + N <= before.len(),
                len == before.len(),
                self.width == old(self).width,
                self.height == old(self).height,
                before == old(self).pixels(),
                start == old(self).start_of(x as int, y as int),
                self.pixels().len() == before.len(),
                forall|i: int|
                    0 <= i < before.len() ==> #[trigger] self.pixels()[i] == if start <= i < start
                        + k {
                        (color_index >> ((i - start) as u8)) & 1u8 == 1u8
                    } else {
                        before[i]
                    },
            decreases N - k,
        {
            let bit = (color_index >> (k as u8)) & 1 == 1;
            bits_set(&mut self.data, start + k, bit);
            k = k + 1;
        }
        assert(self.pixels() =~= written_bits(before, start as int, N as int, color_index));
    }

    /// The color index of every pixel, in order.
    pub fn color_indices(&self) -> (r: Vec<u8>)
        requires
            0 < N <= 8,
        ensures
            r@.len() == self.pixels().len() / (N as nat),
            forall|i: int|
                0 <= i < r@.len() ==> #[trigger] r@[i] == bits_value(
                    self.pixels(),
                    i * N,
                    N as nat,
                ),
    {
        let len = bits_len(&self.data);
        let count = len / N;
        let mut out: Vec<u8> = Vec::new();
        let mut p: usize = 0;
        while p < count
            invariant
                0 < N <= 8,
                len == self.pixels().len(),
                count == len / N,
                p <= count,
                out@.len() == p,
                forall|i: int|
                    0 <= i < p ==> #[trigger] out@[i] == bits_value(self.pixels(), i * N, N as nat),
            decreases count - p,
        {
            proof {
                vstd::arithmetic::div_mod::lemma_fundamental_div_mod(len as int, N as int);
                vstd::arithmetic::mul::lemma_mul_inequality(p + 1, count as int, N as int);
                vstd::arithmetic::mul::lemma_mul_is_distributive_add_other_way(N as int, p as int, 1);
            }
            let start = p * N;
            let mut result: u8 = 0;
            let mut k: usize = N;
            while k > 0
                invariant
                    k <= N <= 8,
                    start + N <= self.pixels().len(),
                    len == self.pixels().len(),
                    result == bits_value(self.pixels(), start + k, (N - k) as nat),
                    result < pow2_nat((N - k) as nat),
                decreases k,
            {
                k = k - 1;
                let bit = bits_get(&self.data, start + k);
                proof {
                    lemma_pow2_step((N - k - 1) as nat);
                    lemma_pow2_le_256((N - k) as nat);
                }
                result = result * 2 + if bit {
                    1
                } else {
                    0
                };
            }
            out.push(result);
            p = p + 1;
        }
        out
    }
}

impl Gfx<1> {
    /// Reverse each row of a one bit image.
    pub fn mirror_horizontal(self) -> (r: Gfx<1>)
        requires
            self.width > 0,
        ensures
            r.width == self.width,
            r.height == self.height,
            r.pixels().len() == self.pixels().len(),
            forall|i: int|
                0 <= i < self.pixels().len() ==> #[trigger] r.pixels()[i] == self.pixels()[
                    mirrored_index(self.pixels().len() as int, self.width as int, i)],
    {
        let mut s = self;
        let width = s.width;
        let len = bits_len(&s.data);
        let ghost orig = s.pixels();
        let mut start: usize = 0;
        let ghost mut row: int = 0;
        while start < len
            invariant
                width == self.width,
                width > 0,
                s.width == self.width,
                s.height == self.height,
                orig == self.pixels(),
                len == orig.len(),
                s.pixels().len() == len,
                start <= len,
                start == len || start == row * width,
                forall|i: int|
                    0 <= i < start ==> #[trigger] s.pixels()[i] == orig[mirrored_index(len as int, width as int, i)],
                forall|i: int| start <= i < len ==> #[trigger] s.pixels()[i] == orig[i],
            decreases len - start,
        {
            let end = if len - start >= width {
                start + width
            } else {
                len
            };
            let ghost before = s.pixels();
            bits_reverse_range(&mut s.data, start, end);
            assert forall|i: int| 0 <= i < end implies #[trigger] s.pixels()[i] == orig[mirrored_index(len as int, width as int, i)] by {
                if i >= start {
                    vstd::arithmetic::div_mod::lemma_fundamental_div_mod_converse(i, width as int, row, i - start);
                    assert(before[start + end - 1 - i] == orig[start + end - 1 - i]);
                } else {
                    assert(s.pixels()[i] == before[i]);
                }
            }
            proof {
                row = row + 1;
            }
            if end < len {
                assert(end == row * width) by (nonlinear_arith)
                    requires
                        end == start + width,
                        start == (row - 1) * width,
                ;
            } else {
                assert(end == len);
            }
            start = end;
        }
        assert(s.pixels() =~= Seq::new(len as nat, |i: int| orig[mirrored_index(len as int, width as int, i)]));
        s
    }
}

/// Two to the power `n`, as a natural number.
pub open spec fn pow2_nat(n: nat) -> nat
    decreases n,
{
    if n == 0 {
        1
    } else {
        2 * pow2_nat((n - 1) as nat)
    }
}

proof fn lemma_pow2_step(n: nat)
    ensures
        pow2_nat(n + 1) == 2 * pow2_nat(n),
{
}

proof fn lemma_pow2_le_256(n: nat)
    requires
        n <= 8,
    ensures
        pow2_nat(n) <= 256,
    decreases n,
{
    lemma_pow2_mono(n, 8);
    reveal_with_fuel(pow2_nat, 9);
}

proof fn lemma_pow2_mono(a: nat, b: nat)
    requires
        a <= b,
    ensures
        pow2_nat(a) <= pow2_nat(b),
    decreases b,
{
    if a < b {
        lemma_pow2_mono(a, (b - 1) as nat);
    }
}

/// Bits that agree on a run have the same value there.
pub proof fn lemma_bits_value_agree(a: Seq<bool>, b: Seq<bool>, s: int, n: nat)
    requires
        forall|i: int| s <= i < s + n ==> a[i] == b[i],
    ensures
        bits_value(a, s, n) == bits_value(b, s, n),
    decreases n,
{
    if n > 0 {
        lemma_bits_value_agree(a, b, s + 1, (n - 1) as nat);
    }
}

/// The value of the bits that hold the low bits of `c` from bit `k` on.
proof fn lemma_bits_value_of_byte(p: Seq<bool>, start: int, c: u8, k: nat, n: nat)
    requires
        k <= n <= 8,
        forall|j: int| k <= j < n ==> #[trigger] p[start + j] == ((c >> (j as u8)) & 1u8 == 1u8),
    ensures
        bits_value(p, start + k, (n - k) as nat) == ((c >> (k as u8)) as nat) % pow2_nat(
            (n - k) as nat,
        ),
    decreases n - k,
{
    if k < n {
        lemma_bits_value_of_byte(p, start, c, k + 1, n);
        let m = (n - k - 1) as nat;
        let y = c >> (k as u8);
        let kk = k as u8;
        assert(y & 1u8 == y % 2) by (bit_vector);
        assert(c >> ((kk + 1) as u8) == (c >> kk) / 2) by (bit_vector)
            requires
                kk < 8,
        ;
        assert(p[start + k] == (y & 1u8 == 1u8));
        lemma_pow2_step(m);
        assert(pow2_nat(m) > 0) by {
            lemma_pow2_mono(0, m);
        }
        vstd::arithmetic::div_mod::lemma_breakdown(y as int, 2, pow2_nat(m) as int);
        assert(start + k + 1 == start + (k + 1));
    } else {
        assert(((c >> (k as u8)) as nat) % 1 == 0);
    }
}

/// Reading a pixel after writing it gives back the written index, cut to its
/// `N` low bits.
pub proof fn lemma_get_after_set<const N: usize>(before: Gfx<N>, after: Gfx<N>, x: int, y: int, c: u8)
    requires
        N <= 8,
        before.holds(x, y),
        after.width == before.width,
        after.pixels() == written_bits(before.pixels(), before.start_of(x, y), N as int, c),
    ensures
        after.color_at(x, y) == (c as nat) % pow2_nat(N as nat),
{
    let start = before.start_of(x, y);
    assert forall|j: int| 0 <= j < N implies #[trigger] after.pixels()[start + j] == ((c >> (j
        as u8)) & 1u8 == 1u8) by {
        assert(start + j - start == j);
    }
    lemma_bits_value_of_byte(after.pixels(), start, c, 0, N as nat);
    assert(c >> 0u8 == c) by (bit_vector);
    assert(start + 0 == start);
}

/// Writing one pixel leaves every other pixel as it was.
pub proof fn lemma_set_keeps_others<const N: usize>(
    before: Gfx<N>,
    after: Gfx<N>,
    x: int,
    y: int,
    c: u8,
    x2: int,
    y2: int,
)
    requires
        0 < N,
        before.holds(x, y),
        before.holds(x2, y2),
        after.width == before.width,
        after.pixels() == written_bits(before.pixels(), before.start_of(x, y), N as int, c),
        x + y * before.width != x2 + y2 * before.width,
    ensures
        after.color_at(x2, y2) == before.color_at(x2, y2),
{
    let w = before.width as int;
    let n = N as int;
    let p = x + y * w;
    let q = x2 + y2 * w;
    assert(before.start_of(x, y) == n * p) by (nonlinear_arith)
        requires
            before.start_of(x, y) == x * n + y * n * w,
            p == x + y * w,
    ;
    assert(before.start_of(x2, y2) == n * q) by (nonlinear_arith)
        requires
            before.start_of(x2, y2) == x2 * n + y2 * n * w,
            q == x2 + y2 * w,
    ;
    assert(n * p + n <= n * q || n * q + n <= n * p) by (nonlinear_arith)
        requires
            p != q,
            0 < n,
    ;
    lemma_bits_value_agree(after.pixels(), before.pixels(), before.start_of(x2, y2), N as nat);
}

} // verus!
