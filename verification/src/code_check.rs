//! Bounds of compressed cartridge code: does a compressed stream decode
//! within its buffers? The decoders read their input and write their output
//! without checking every index, so the library follows the stream's reads,
//! block copies and lengths first, in both formats. Only positions and
//! lengths are followed; the decoded bytes themselves are left to the decoder.

use vstd::prelude::*;

verus! {

/// Bit `p` of `s`, counting from the least significant bit of each byte.
pub open spec fn bit_at(s: Seq<u8>, p: int) -> bool {
    (s[p / 8] >> ((p % 8) as u8)) & 1u8 == 1u8
}

/// The number that `n` bits from bit `p` on stand for, the first least significant.
pub open spec fn val_at(s: Seq<u8>, p: int, n: nat) -> int
    decreases n,
{
    if n == 0 {
        0
    } else {
        (if bit_at(s, p) {
            1int
        } else {
            0int
        }) + 2 * val_at(s, p + 1, (n - 1) as nat)
    }
}

/// Reading a chain of `link`-bit values from bit `p`, `read` bits read so
/// far: the values add up while each is all ones, until `limit` bits are
/// read. The sum and the bit after the chain, or `None` where it runs past
/// the input.
pub open spec fn chain(s: Seq<u8>, p: int, link: nat, limit: int, read: int) -> Option<(int, int)>
    decreases limit - read,
{
    if p + link > s.len() * 8 {
        None
    } else {
        let vv = val_at(s, p, link);
        let read2 = read + link;
        if link > 0 && vv == pow2(link) - 1 && read2 < limit {
            match chain(s, p + link, link, limit, read2) {
                None => None,
                Some((v2, p2)) => Some((vv + v2, p2)),
            }
        } else {
            Some((vv, p + link))
        }
    }
}

/// Two to the power `n`.
pub open spec fn pow2(n: nat) -> int
    decreases n,
{
    if n == 0 {
        1
    } else {
        2 * pow2((n - 1) as nat)
    }
}

/// What one block of a PXA stream does.
pub enum Step {
    /// The decoder would index out of bounds.
    Panics,
    /// The decoder stops with an error of its own.
    Fails,
    /// The next block starts at bit `p` with `dest` bytes written.
    Next(int, int),
}

/// The number of one bits before a zero bit from `p` on, counting at most 16
/// and reading the bit after the sixteenth; with the bit after them.
pub open spec fn ones(s: Seq<u8>, p: int, count: int) -> Option<(int, int)>
    decreases 17 - count,
{
    if p >= s.len() * 8 || count > 16 {
        None
    } else if bit_at(s, p) && count < 16 {
        ones(s, p + 1, count + 1)
    } else {
        Some((count, p + 1))
    }
}

/// The raw bytes of a raw block from bit `p`, `dest` bytes written: they
/// run until a zero byte or until `max` bytes are written.
pub open spec fn raw_run(s: Seq<u8>, p: int, dest: int, max: int) -> Option<(int, int)>
    decreases max - dest,
{
    if dest >= max {
        Some((p, dest))
    } else if p + 8 > s.len() * 8 {
        None
    } else if val_at(s, p, 8) == 0 {
        Some((p + 8, dest))
    } else {
        raw_run(s, p + 8, dest + 1, max)
    }
}

/// One block of a PXA stream from bit `p` (after its type bit `q`), `dest`
/// bytes of `max` written.
pub open spec fn pxa_step(s: Seq<u8>, p: int, dest: int, max: int) -> Step {
    if p >= s.len() * 8 {
        Step::Panics
    } else if !bit_at(s, p) {
        // A copy of earlier output, or a run of raw bytes.
        match chain(s, p + 1, 1, 2, 0) {
            None => Step::Panics,
            Some((c, q)) => {
                let bits = (3 - c) * 5;
                if q + bits > s.len() * 8 {
                    Step::Panics
                } else {
                    let v = val_at(s, q, bits as nat);
                    if v == 0 && bits == 10 {
                        match raw_run(s, q + bits, dest, max) {
                            None => Step::Panics,
                            Some((p2, d2)) => Step::Next(p2, d2),
                        }
                    } else {
                        let offset = v + 1;
                        match chain(s, q + bits, 3, 100000, 0) {
                            None => Step::Panics,
                            Some((l, p2)) => {
                                let len = l + 3;
                                if offset > dest || dest + len > max {
                                    Step::Panics
                                } else {
                                    Step::Next(p2, dest + len)
                                }
                            },
                        }
                    }
                }
            },
        }
    } else {
        // A literal, found in the table by its position.
        match ones(s, p + 1, 0) {
            None => Step::Panics,
            Some((count, q)) => {
                let bits = count + 4;
                if bits > 15 || q + bits > s.len() * 8 {
                    Step::Panics
                } else if (pow2((count + 4) as nat) - 16) + val_at(s, q, bits as nat) > 255 {
                    Step::Fails
                } else {
                    Step::Next(q + bits, dest + 1)
                }
            },
        }
    }
}

/// Does the PXA stream decode within bounds from bit `p`, `dest` of `max`
/// bytes written, blocks being read while their start lies in the first
/// `comp` bytes?
pub open spec fn pxa_runs(s: Seq<u8>, p: int, dest: int, max: int, comp: int) -> bool
    decreases s.len() * 8 - p,
{
    if !(p / 8 < comp && dest < max) {
        dest == max
    } else {
        match pxa_step(s, p, dest, max) {
            Step::Panics => false,
            Step::Fails => true,
            Step::Next(p2, d2) => if p < p2 <= s.len() * 8 {
                pxa_runs(s, p2, d2, max, comp)
            } else {
                false
            },
        }
    }
}

/// Does a PXA stream decode within bounds? Its header is eight bytes: 0,
/// `p`, `x`, `a`, the decoded length and the compressed length, big endian;
/// a stream with another header is refused by the decoder.
pub open spec fn pxa_in_bounds(s: Seq<u8>) -> bool {
    s.len() >= 8 && (if s[0] == 0 && s[1] == 112 && s[2] == 120 && s[3] == 97 {
        pxa_runs(s, 64, 0, s[4] * 256 + s[5], s[6] * 256 + s[7])
    } else {
        true
    })
}

/// Does a `:c:` stream decode within bounds from byte `i`, `out` bytes of
/// `len` written into its buffer of 65536 bytes? A literal writes one byte (a
/// zero byte takes the next byte as it stands); a block copies earlier
/// output, and the decoder's copy takes its source from the output written
/// so far, so a block longer than its offset reads past it. Running out of
/// input and a block outside the buffer are errors of the decoder's own. At
/// the end the decoder writes one byte past the output, which must lie in the
/// buffer.
pub open spec fn p8_runs(s: Seq<u8>, i: int, out: int, len: int) -> bool
    decreases s.len() - i,
{
    if out >= len {
        out < 65536
    } else if i < 0 || i >= s.len() {
        true
    } else if s[i] < 60 {
        if s[i] == 0 {
            if i + 1 >= s.len() {
                true
            } else {
                p8_runs(s, i + 2, out + 1, len)
            }
        } else {
            p8_runs(s, i + 1, out + 1, len)
        }
    } else if i + 1 >= s.len() {
        true
    } else {
        let offset = (s[i] - 60) * 16 + s[i + 1] % 16;
        let length = s[i + 1] / 16 + 2;
        if offset == 0 || out < offset || out + length > 65536 {
            true
        } else if length > offset {
            false
        } else {
            p8_runs(s, i + 2, out + length, len)
        }
    }
}

/// Does a `:c:` stream decode within bounds? Its header is eight bytes: `:c:`
/// and a zero, the decoded length (big endian) and two bytes it skips.
pub open spec fn p8_in_bounds(s: Seq<u8>) -> bool {
    s.len() < 8 || p8_runs(s, 8, 0, s[4] * 256 + s[5])
}

/// Is the stream compressed in one of the two known formats, by its header?
pub open spec fn is_pxa(s: Seq<u8>) -> bool {
    s[0] == 0 || s[1] == 112 || s[2] == 120 || s[3] == 97
}

/// Does compressed code decode within bounds, in whichever format its header names?
pub open spec fn code_in_bounds(s: Seq<u8>) -> bool {
    if is_pxa(s) {
        pxa_in_bounds(s)
    } else {
        p8_in_bounds(s)
    }
}

/// Read bit `p`.
fn read_bit(s: &[u8], p: usize) -> (r: bool)
    requires
        p < s@.len() * 8,
    ensures
        r == bit_at(s@, p as int),
{
    (s[p / 8] >> ((p % 8) as u8)) & 1 == 1
}

/// Read `n` bits from bit `p`, the first least significant.
fn read_val(s: &[u8], p: usize, n: usize) -> (r: u64)
    requires
        n <= 15,
        p + n <= s@.len() * 8,
        s@.len() * 8 <= usize::MAX,
    ensures
        r == val_at(s@, p as int, n as nat),
        r < pow2(n as nat),
{
    let mut k: usize = n;
    let mut acc: u64 = 0;
    while k > 0
        invariant
            k <= n <= 15,
            p + n <= s@.len() * 8,
            s@.len() * 8 <= usize::MAX,
            acc == val_at(s@, p + k, (n - k) as nat),
            acc < pow2((n - k) as nat),
            pow2((n - k) as nat) <= 32768,
        decreases k,
    {
        k = k - 1;
        let b = read_bit(s, p + k);
        proof {
            lemma_pow2_le((n - k) as nat, 15);
        }
        acc = acc * 2 + if b {
            1
        } else {
            0
        };
    }
    acc
}

proof fn lemma_pow2_le(a: nat, b: nat)
    requires
        a <= b,
        b <= 15,
    ensures
        pow2(a) <= pow2(b),
        pow2(a) >= 1,
        pow2(15) == 32768,
    decreases b,
{
    reveal_with_fuel(pow2, 16);
    if a < b {
        lemma_pow2_le(a, (b - 1) as nat);
    }
}

/// Read a chain of `link`-bit values from bit `p`, at most `limit` bits.
fn read_chain(s: &[u8], p: usize, link: usize, limit: usize) -> (r: Option<(u64, usize)>)
    requires
        1 <= link <= 3,
        limit <= 100000,
        s@.len() * 8 <= usize::MAX,
    ensures
        match chain(s@, p as int, link as nat, limit as int, 0) {
            None => r is None,
            Some((v, q)) => r matches Some((rv, rq)) && rv == v && rq == q,
        },
{
    let mut acc: u64 = 0;
    let mut at: usize = p;
    let mut read: usize = 0;
    proof {
        lemma_pow2_le(link as nat, 15);
        reveal_with_fuel(pow2, 4);
    }
    loop
        invariant
            1 <= link <= 3,
            limit <= 100000,
            s@.len() * 8 <= usize::MAX,
            read <= limit,
            acc <= read * 7,
            pow2(link as nat) <= 8,
            pow2(link as nat) >= 2,
            chain(s@, p as int, link as nat, limit as int, 0) == match chain(s@, at as int, link as nat, limit as int, read as int) {
                None => None,
                Some((v, q)) => Some((acc + v, q)),
            },
        decreases limit - read,
    {
        if at > s.len() * 8 || s.len() * 8 - at < link {
            return None;
        }
        let vv = read_val(s, at, link);
        let read2 = read + link;
        let top: u64 = if link == 1 {
            1
        } else if link == 2 {
            3
        } else {
            7
        };
        assert(top == pow2(link as nat) - 1) by {
            reveal_with_fuel(pow2, 4);
        }
        let all_ones = vv == top;
        if all_ones && read2 < limit {
            acc = acc + vv;
            at = at + link;
            read = read2;
        } else {
            return Some((acc + vv, at + link));
        }
    }
}

/// The count of one bits from bit `p`, as [`ones`] reads them.
fn read_ones(s: &[u8], p: usize) -> (r: Option<(usize, usize)>)
    requires
        s@.len() * 8 <= usize::MAX,
    ensures
        match ones(s@, p as int, 0) {
            None => r is None,
            Some((c, q)) => r matches Some((rc, rq)) && rc == c && rq == q,
        },
        r matches Some((c, _)) ==> c <= 16,
{
    let mut count: usize = 0;
    let mut at: usize = p;
    loop
        invariant
            s@.len() * 8 <= usize::MAX,
            count <= 16,
            at == p + count,
            ones(s@, p as int, 0) == ones(s@, at as int, count as int),
        decreases 17 - count,
    {
        if at >= s.len() * 8 {
            return None;
        }
        let b = read_bit(s, at);
        if b && count < 16 {
            count = count + 1;
            at = at + 1;
        } else {
            return Some((count, at + 1));
        }
    }
}

/// Skip the raw bytes of a raw block, as [`raw_run`] reads them.
fn read_raw(s: &[u8], p: usize, dest: usize, max: usize) -> (r: Option<(usize, usize)>)
    requires
        s@.len() * 8 <= usize::MAX,
        dest <= max,
    ensures
        match raw_run(s@, p as int, dest as int, max as int) {
            None => r is None,
            Some((q, d)) => r matches Some((rq, rd)) && rq == q && rd == d,
        },
        r matches Some((_, d)) ==> d <= max,
{
    let mut at: usize = p;
    let mut d: usize = dest;
    loop
        invariant
            s@.len() * 8 <= usize::MAX,
            dest <= d <= max,
            raw_run(s@, p as int, dest as int, max as int) == raw_run(s@, at as int, d as int, max as int),
        decreases max - d,
    {
        if d >= max {
            return Some((at, d));
        }
        if at > s.len() * 8 || s.len() * 8 - at < 8 {
            return None;
        }
        let v = read_val(s, at, 8);
        if v == 0 {
            return Some((at + 8, d));
        }
        at = at + 8;
        d = d + 1;
    }
}

/// One block of a PXA stream, as [`pxa_step`] reads it: `Err(true)` where
/// the decoder would index out of bounds, `Err(false)` where it stops with
/// an error, else the next block's start and the bytes written.
fn step(s: &[u8], p: usize, dest: usize, max: usize) -> (r: Result<(usize, usize), bool>)
    requires
        s@.len() * 8 <= usize::MAX,
        dest < max,
        max <= 65535,
    ensures
        match pxa_step(s@, p as int, dest as int, max as int) {
            Step::Panics => r == Err::<(usize, usize), bool>(true),
            Step::Fails => r == Err::<(usize, usize), bool>(false),
            Step::Next(q, d) => r matches Ok((rq, rd)) && rq == q && rd == d,
        },
        r matches Ok((_, d)) ==> d <= max,
{
    if p >= s.len() * 8 {
        return Err(true);
    }
    if !read_bit(s, p) {
        let (c, q) = match read_chain(s, p + 1, 1, 2) {
            None => {
                return Err(true);
            },
            Some(x) => x,
        };
        proof {
            reveal_with_fuel(chain, 3);
            reveal_with_fuel(pow2, 3);
        }
        proof {
            lemma_chain_small(s@, (p + 1) as int);
        }
        assert(c <= 2);
        let bits: usize = (3 - c as usize) * 5;
        if q > s.len() * 8 || s.len() * 8 - q < bits {
            return Err(true);
        }
        let v = read_val(s, q, bits);
        proof {
            lemma_pow2_le(bits as nat, 15);
        }
        if v == 0 && bits == 10 {
            match read_raw(s, q + bits, dest, max) {
                None => Err(true),
                Some((p2, d2)) => Ok((p2, d2)),
            }
        } else {
            let offset = v + 1;
            match read_chain(s, q + bits, 3, 100000) {
                None => Err(true),
                Some((l, p2)) => {
                    proof {
                        lemma_chain_bound(s@, (q + bits) as int, 3, 100000, 0);
                    }
                    let len = l + 3;
                    if offset > dest as u64 || dest as u64 + len > max as u64 {
                        Err(true)
                    } else {
                        Ok((p2, dest + len as usize))
                    }
                },
            }
        }
    } else {
        let (count, q) = match read_ones(s, p + 1) {
            None => {
                return Err(true);
            },
            Some(x) => x,
        };
        let bits = count + 4;
        if bits > 15 || q > s.len() * 8 || s.len() * 8 - q < bits {
            return Err(true);
        }
        let v = read_val(s, q, bits);
        proof {
            lemma_pow2_le(bits as nat, 15);
        }
        let mut base: u64 = 1;
        let mut k: usize = 0;
        while k < bits
            invariant
                k <= bits <= 15,
                base == pow2(k as nat),
                pow2(k as nat) <= 32768,
            decreases bits - k,
        {
            proof {
                lemma_pow2_le((k + 1) as nat, 15);
            }
            base = base * 2;
            k = k + 1;
        }
        proof {
            lemma_pow2_le(4, bits as nat);
            reveal_with_fuel(pow2, 5);
        }
        let base = base - 16;
        if base + v > 255 {
            Err(false)
        } else {
            Ok((q + bits, dest + 1))
        }
    }
}

/// A chain's sum is at most seven for every three bits read.
proof fn lemma_chain_bound(s: Seq<u8>, p: int, link: nat, limit: int, read: int)
    requires
        link == 3,
        0 <= read <= limit,
        limit <= 100000,
    ensures
        chain(s, p, link, limit, read) matches Some((v, _)) ==> 0 <= v <= 7 * ((limit - read) / 3 + 1),
    decreases limit - read,
{
    reveal_with_fuel(pow2, 4);
    if p + link <= s.len() * 8 {
        lemma_val_bound(s, p, link);
        let vv = val_at(s, p, link);
        assert(0 <= vv <= 7);
        if vv == pow2(link) - 1 && read + link < limit {
            lemma_chain_bound(s, p + link, link, limit, read + link);
            assert((limit - read - 3) / 3 == (limit - read) / 3 - 1);
        }
    }
}

/// A chain of single bits read at most twice sums to at most two.
proof fn lemma_chain_small(s: Seq<u8>, p: int)
    ensures
        chain(s, p, 1, 2, 0) matches Some((v, _)) ==> 0 <= v <= 2,
{
    reveal_with_fuel(pow2, 2);
    lemma_val_bound(s, p, 1);
    lemma_val_bound(s, p + 1, 1);
    assert(chain(s, p + 1, 1, 2, 1) matches Some((v, _)) ==> v == val_at(s, p + 1, 1));
}

/// A value of `n` bits is below two to the `n`.
proof fn lemma_val_bound(s: Seq<u8>, p: int, n: nat)
    ensures
        0 <= val_at(s, p, n) < pow2(n),
    decreases n,
{
    if n > 0 {
        lemma_val_bound(s, p + 1, (n - 1) as nat);
    }
}

/// Does the PXA stream `s` decode within bounds?
pub fn pxa_check(s: &[u8]) -> (r: bool)
    requires
        s@.len() * 8 <= usize::MAX,
    ensures
        r == pxa_in_bounds(s@),
{
    if s.len() < 8 {
        return false;
    }
    if !(s[0] == 0 && s[1] == 112 && s[2] == 120 && s[3] == 97) {
        return true;
    }
    let max: usize = s[4] as usize * 256 + s[5] as usize;
    let comp: usize = s[6] as usize * 256 + s[7] as usize;
    let mut p: usize = 64;
    let mut dest: usize = 0;
    loop
        invariant
            s@.len() >= 8,
            s@.len() * 8 <= usize::MAX,
            max == s@[4] * 256 + s@[5],
            comp == s@[6] * 256 + s@[7],
            max <= 65535,
            dest <= max,
            p <= s@.len() * 8,
            pxa_in_bounds(s@) == pxa_runs(s@, p as int, dest as int, max as int, comp as int),
        decreases s@.len() * 8 - p,
    {
        if !(p / 8 < comp && dest < max) {
            return dest == max;
        }
        match step(s, p, dest, max) {
            Err(panics) => {
                return !panics;
            },
            Ok((p2, d2)) => {
                if p < p2 && p2 <= s.len() * 8 {
                    p = p2;
                    dest = d2;
                } else {
                    return false;
                }
            },
        }
    }
}

/// Does the `:c:` stream `s` decode within bounds?
pub fn p8_check(s: &[u8]) -> (r: bool)
    ensures
        r == p8_in_bounds(s@),
{
    if s.len() < 8 {
        return true;
    }
    let len: usize = s[4] as usize * 256 + s[5] as usize;
    let mut i: usize = 8;
    let mut out: usize = 0;
    while out < len
        invariant
            s@.len() >= 8,
            len == s@[4] * 256 + s@[5],
            len <= 65535,
            out <= 65536,
            8 <= i,
            p8_in_bounds(s@) == p8_runs(s@, i as int, out as int, len as int),
        decreases s@.len() - i,
    {
        if i >= s.len() {
            return true;
        }
        let v = s[i];
        if v < 60 {
            if v == 0 {
                if i + 1 >= s.len() {
                    return true;
                }
                i = i + 2;
            } else {
                i = i + 1;
            }
            out = out + 1;
        } else {
            if i + 1 >= s.len() {
                return true;
            }
            let w = s[i + 1];
            let offset: usize = (v as usize - 60) * 16 + (w % 16) as usize;
            let length: usize = (w / 16) as usize + 2;
            if offset == 0 || out < offset || out + length > 65536 {
                return true;
            }
            if length > offset {
                return false;
            }
            i = i + 2;
            out = out + length;
        }
    }
    out < 65536
}

/// Does compressed code decode within bounds, in whichever format its header names?
pub fn code_check(s: &[u8]) -> (r: bool)
    requires
        s@.len() >= 6,
        s@.len() * 8 <= usize::MAX,
    ensures
        r == code_in_bounds(s@),
{
    if s[0] == 0 || s[1] == 112 || s[2] == 120 || s[3] == 97 {
        pxa_check(s)
    } else {
        p8_check(s)
    }
}

} // verus!
