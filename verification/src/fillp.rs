//! Fill patterns: a 4x4 tile of bits, the first pixel in the most significant bit.

use vstd::prelude::*;

verus! {

/// A 4x4 fill pattern; pixel `i` of the tile (row by row) is bit `15 - i` of `data`.
#[derive(Debug, Clone, Copy, PartialEq, Eq, Structural)]
pub struct FillPat {
    pub data: u16,
}

/// Pixel `i` of the tile of `data`.
pub open spec fn tile_bit(data: u16, i: int) -> bool {
    0 <= i < 16 && (data >> ((15 - i) as u16)) & 1u16 == 1u16
}

/// Where pixel `(x, y)` falls in the tile.
pub open spec fn tile_index(x: int, y: int) -> int {
    (x % 4) + (y % 4) * 4
}

impl FillPat {
    /// The empty pattern.
    pub fn default() -> (r: FillPat)
        ensures
            r.data == 0,
    {
        FillPat { data: 0 }
    }

    /// The pattern of the bits of `x`, the first pixel in the top bit.
    pub fn from(x: u16) -> (r: FillPat)
        ensures
            r.data == x,
    {
        FillPat { data: x }
    }

    /// The bits of the pattern as a number.
    pub fn to_u16(self) -> (r: u16)
        ensures
            r == self.data,
    {
        self.data
    }

    /// Is pixel `(x, y)` set? The pattern repeats every four pixels.
    pub fn get(&self, x: usize, y: usize) -> (r: bool)
        ensures
            r == tile_bit(self.data, tile_index(x as int, y as int)),
    {
        let i = ((x % 4) + (y % 4) * 4) as u16;
        let s = 15 - i;
        (self.data >> s) & 1 == 1
    }

    /// Set pixel `(x, y)` of the tile.
    pub fn set(&mut self, x: usize, y: usize, value: bool)
        ensures
            tile_bit(final(self).data, tile_index(x as int, y as int)) == value,
            forall|i: int|
                0 <= i < 16 && i != tile_index(x as int, y as int) ==> tile_bit(final(self).data, i)
                    == tile_bit(old(self).data, i),
    {
        let i = ((x % 4) + (y % 4) * 4) as u16;
        let s = 15 - i;
        let d = self.data;
        let n = if value {
            d | (1u16 << s)
        } else {
            d & !(1u16 << s)
        };
        assert(((n >> s) & 1u16 == 1u16) == value) by (bit_vector)
            requires
                s < 16,
                n == if value {
                    d | (1u16 << s)
                } else {
                    d & !(1u16 << s)
                },
        ;
        assert forall|j: int|
            0 <= j < 16 && j != i implies tile_bit(n, j) == tile_bit(d, j) by {
            let t = (15 - j) as u16;
            assert(((n >> t) & 1u16 == 1u16) == ((d >> t) & 1u16 == 1u16)) by (bit_vector)
                requires
                    s < 16,
                    t < 16,
                    t != s,
                    n == if value {
                        d | (1u16 << s)
                    } else {
                        d & !(1u16 << s)
                    },
            ;
        }
        self.data = n;
    }

    /// The pattern bits of an image of `width` by `height` pixels, row by row.
    pub fn pattern_bits(&self, width: usize, height: usize) -> (r: Vec<bool>)
        requires
            width * height <= usize::MAX,
        ensures
            r@.len() == width * height,
            forall|y: int, x: int|
                0 <= y < height && 0 <= x < width ==> #[trigger] r@[y * width + x] == tile_bit(
                    self.data,
                    tile_index(x, y),
                ),
    {
        let n = width * height;
        let mut out: Vec<bool> = Vec::new();
        let mut k: usize = 0;
        while k < n
            invariant
                k <= n,
                n == width * height,
                out@.len() == k,
                forall|j: int|
                    0 <= j < k ==> #[trigger] out@[j] == tile_bit(
                        self.data,
                        tile_index(j % (width as int), j / (width as int)),
                    ),
            decreases n - k,
        {
            assert(width > 0) by {
                if width == 0 {
                    assert(width * height == 0);
                }
            }
            let b = self.get(k % width, k / width);
            out.push(b);
            k = k + 1;
        }
        assert forall|y: int, x: int| 0 <= y < height && 0 <= x < width implies #[trigger] out@[y
            * width + x] == tile_bit(self.data, tile_index(x, y)) by {
            let j = y * width + x;
            vstd::arithmetic::div_mod::lemma_fundamental_div_mod_converse(j, width as int, y, x);
            vstd::arithmetic::mul::lemma_mul_inequality(y + 1, height as int, width as int);
            vstd::arithmetic::mul::lemma_mul_is_distributive_add(width as int, y, 1);
            vstd::arithmetic::mul::lemma_mul_is_commutative(width as int, y);
            vstd::arithmetic::mul::lemma_mul_is_commutative(width as int, y + 1);
            vstd::arithmetic::mul::lemma_mul_is_commutative(width as int, height as int);
        }
        out
    }
}

/// `fillp(pattern)`: set the fill pattern (zero turns it off) and return the
/// pattern that was set before (zero where none was).
pub fn fillp(fill_pat: &mut Option<FillPat>, pattern: Option<u16>) -> (r: u16)
    ensures
        r == match *old(fill_pat) {
            Some(p) => p.data,
            None => 0u16,
        },
        *final(fill_pat) == match pattern {
            Some(0u16) => None,
            Some(x) => Some(FillPat { data: x }),
            None => *old(fill_pat),
        },
{
    let last: u16 = match *fill_pat {
        Some(p) => p.to_u16(),
        None => 0,
    };
    match pattern {
        Some(x) => {
            if x == 0 {
                *fill_pat = None;
            } else {
                *fill_pat = Some(FillPat::from(x));
            }
        },
        None => {},
    }
    last
}

} // verus!
