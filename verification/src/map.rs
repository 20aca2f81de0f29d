//! The Pico-8 map: a grid of sprite numbers, 128 columns wide.

use vstd::prelude::*;
use vstd::string::StringExecFns;
use crate::api::Error;

verus! {

/// The number of columns of the map.
pub const MAP_COLUMNS: u32 = 128;

/// A map of sprite numbers, drawn with the sprites of sheet `sheet_index`.
pub struct P8Map {
    pub entries: Vec<u8>,
    pub sheet_index: usize,
}

/// A tile to draw: its column and row in the drawn area (rows counted from
/// the bottom) and its sprite.
#[derive(Debug, Clone, Copy, PartialEq, Eq, Structural)]
pub struct Tile {
    pub x: u32,
    pub y: u32,
    pub texture_index: u8,
}

/// The map entry of cell `(x, y)`.
pub open spec fn cell(x: int, y: int) -> int {
    x + y * 128
}

/// The sprite drawn at cell `k` of a map: its entry, unless a mask is given
/// and the sprite's flags lack a bit of it or there are no flags, and 0 past
/// the end of the map.
pub open spec fn drawn_sprite(entries: Seq<u8>, k: int, mask: Option<u8>, flags: Option<Seq<u8>>) -> u8 {
    if 0 <= k < entries.len() {
        match mask {
            None => entries[k],
            Some(m) => match flags {
                Some(f) => if f[entries[k] as int] & m == m {
                    entries[k]
                } else {
                    0
                },
                None => 0,
            },
        }
    } else {
        0
    }
}

/// The tiles of columns `0..x` of a `w` by `h` area whose top left cell is
/// `(mx, my)`, column by column and top down within a column.
pub open spec fn tiles_upto(
    entries: Seq<u8>,
    mx: int,
    my: int,
    h: int,
    mask: Option<u8>,
    flags: Option<Seq<u8>>,
    x: int,
    y: int,
) -> Seq<Tile>
    decreases x, y,
{
    if x <= 0 {
        seq![]
    } else if y <= 0 {
        tiles_upto(entries, mx, my, h, mask, flags, x - 1, h)
    } else {
        let prev = tiles_upto(entries, mx, my, h, mask, flags, x, y - 1);
        let t = drawn_sprite(entries, cell(mx + x - 1, my + y - 1), mask, flags);
        if t != 0 {
            prev.push(Tile { x: (x - 1) as u32, y: (h - y) as u32, texture_index: t })
        } else {
            prev
        }
    }
}

/// Are the flags long enough for every sprite that a masked draw looks up?
pub open spec fn flags_cover(entries: Seq<u8>, mx: int, my: int, w: int, h: int, flags: Seq<u8>) -> bool {
    forall|x: int, y: int|
        0 <= x < w && 0 <= y < h && 0 <= #[trigger] cell(mx + x, my + y) < entries.len() ==> entries[cell(
            mx + x,
            my + y,
        )] < flags.len()
}

impl P8Map {
    /// The tiles that `map` draws of the `w` by `h` cells whose top left is
    /// `(mx, my)`: every cell whose sprite is not 0, where with a mask the
    /// sprite's flags must hold every bit of the mask. Cells past the end of
    /// the map draw nothing.
    pub fn tiles(&self, mx: u32, my: u32, w: u32, h: u32, mask: Option<u8>, flags: Option<&[u8]>) -> (r: Vec<Tile>)
        requires
            w == 0 || h == 0 || mx + (w - 1) + (my + h - 1) * 128 <= u32::MAX,
            mask is Some ==> (flags matches Some(f) ==> flags_cover(self.entries@, mx as int, my as int, w as int, h as int, f@)),
        ensures
            r@ == tiles_upto(
                self.entries@,
                mx as int,
                my as int,
                h as int,
                mask,
                match flags {
                    Some(f) => Some(f@),
                    None => None,
                },
                w as int,
                h as int,
            ),
    {
        let ghost fl: Option<Seq<u8>> = match flags {
            Some(f) => Some(f@),
            None => None,
        };
        let mut out: Vec<Tile> = Vec::new();
        let mut x: u32 = 0;
        while x < w
            invariant
                x <= w,
                w == 0 || h == 0 || mx + (w - 1) + (my + h - 1) * 128 <= u32::MAX,
                fl == match flags {
                    Some(f) => Some(f@),
                    None => None::<Seq<u8>>,
                },
                mask is Some ==> (flags matches Some(f) ==> flags_cover(self.entries@, mx as int, my as int, w as int, h as int, f@)),
                out@ == tiles_upto(self.entries@, mx as int, my as int, h as int, mask, fl, x as int, h as int),
            decreases w - x,
        {
            let mut y: u32 = 0;
            assert(tiles_upto(self.entries@, mx as int, my as int, h as int, mask, fl, x + 1, 0)
                == tiles_upto(self.entries@, mx as int, my as int, h as int, mask, fl, x as int, h as int));
            while y < h
                invariant
                    x < w,
                    y <= h,
                    w == 0 || h == 0 || mx + (w - 1) + (my + h - 1) * 128 <= u32::MAX,
                    fl == match flags {
                        Some(f) => Some(f@),
                        None => None::<Seq<u8>>,
                    },
                    mask is Some ==> (flags matches Some(f) ==> flags_cover(self.entries@, mx as int, my as int, w as int, h as int, f@)),
                    out@ == tiles_upto(self.entries@, mx as int, my as int, h as int, mask, fl, x + 1, y as int),
                decreases h - y,
            {
                let k = (mx + x + (my + y) * MAP_COLUMNS) as usize;
                assert(k == cell(mx + x, my + y));
                let t: u8 = if k < self.entries.len() {
                    let e = self.entries[k];
                    match mask {
                        None => e,
                        Some(m) => match flags {
                            Some(f) => {
                                assert(0 <= cell(mx + x, my + y) < self.entries@.len());
                                if f[e as usize] & m == m {
                                    e
                                } else {
                                    0
                                }
                            },
                            None => 0,
                        },
                    }
                } else {
                    0
                };
                if t != 0 {
                    out.push(Tile { x, y: h - y - 1, texture_index: t });
                }
                y = y + 1;
            }
            x = x + 1;
        }
        out
    }

    /// The sprite at cell `(x, y)`.
    pub fn mget(&self, x: u32, y: u32) -> (r: u8)
        requires
            x + y * 128 <= u32::MAX,
            x + y * 128 < self.entries@.len(),
        ensures
            r == self.entries@[cell(x as int, y as int)],
    {
        self.entries[(x + y * MAP_COLUMNS) as usize]
    }

    /// Put sprite `sprite_index` (its low byte) at cell `(x, y)`, or report
    /// that the cell is past the end of the map.
    pub fn mset(&mut self, x: u32, y: u32, sprite_index: usize) -> (r: Result<(), Error>)
        requires
            x + y * 128 <= u32::MAX,
        ensures
            cell(x as int, y as int) < old(self).entries@.len() ==> (r is Ok && final(self).entries@
                == old(self).entries@.update(cell(x as int, y as int), sprite_index as u8)),
            cell(x as int, y as int) >= old(self).entries@.len() ==> (r matches Err(Error::NoSuch(_))
                && final(self).entries@ == old(self).entries@),
            final(self).sheet_index == old(self).sheet_index,
    {
        let k = (x + y * MAP_COLUMNS) as usize;
        if k < self.entries.len() {
            self.entries.set(k, sprite_index as u8);
            Ok(())
        } else {
            Err(Error::NoSuch(String::from_str("map entry")))
        }
    }
}

/// Bit `b` of `x`, least significant first.
pub open spec fn has_bit(x: u8, b: u8) -> bool {
    (x >> b) & 1u8 == 1u8
}

/// Does `x` hold each of the eight bits of `m`, one by one?
pub open spec fn holds_each_bit(x: u8, m: u8) -> bool {
    &&& (has_bit(m, 0) ==> has_bit(x, 0))
    &&& (has_bit(m, 1) ==> has_bit(x, 1))
    &&& (has_bit(m, 2) ==> has_bit(x, 2))
    &&& (has_bit(m, 3) ==> has_bit(x, 3))
    &&& (has_bit(m, 4) ==> has_bit(x, 4))
    &&& (has_bit(m, 5) ==> has_bit(x, 5))
    &&& (has_bit(m, 6) ==> has_bit(x, 6))
    &&& (has_bit(m, 7) ==> has_bit(x, 7))
}

/// `x` holds every bit of `m` exactly where `x & m == m`.
proof fn lemma_holds_all_bits(x: u8, m: u8)
    ensures
        (x & m == m) <==> (forall|b: u8| b < 8 ==> (#[trigger] has_bit(m, b) ==> has_bit(x, b))),
{
    assert((x & m == m) <==> holds_each_bit(x, m)) by (bit_vector);
    if holds_each_bit(x, m) {
        assert forall|b: u8| b < 8 implies (#[trigger] has_bit(m, b) ==> has_bit(x, b)) by {
            if b == 0 {} else if b == 1 {} else if b == 2 {} else if b == 3 {} else if b == 4 {} else if b == 5 {} else if b == 6 {} else {}
        }
    }
    if forall|b: u8| b < 8 ==> (#[trigger] has_bit(m, b) ==> has_bit(x, b)) {
        assert(has_bit(m, 0) ==> has_bit(x, 0));
        assert(has_bit(m, 1) ==> has_bit(x, 1));
        assert(has_bit(m, 2) ==> has_bit(x, 2));
        assert(has_bit(m, 3) ==> has_bit(x, 3));
        assert(has_bit(m, 4) ==> has_bit(x, 4));
        assert(has_bit(m, 5) ==> has_bit(x, 5));
        assert(has_bit(m, 6) ==> has_bit(x, 6));
        assert(has_bit(m, 7) ==> has_bit(x, 7));
    }
}

/// What a map cell draws: without a mask, its sprite; with a mask and the
/// sprites' flags, its sprite where the sprite's flags hold every bit of the
/// mask, and nothing (0) where they lack one bit of it or there are no flags.
pub proof fn lemma_mask_selects_sprites(entries: Seq<u8>, k: int, m: u8, f: Seq<u8>)
    requires
        0 <= k < entries.len(),
        entries[k] < f.len(),
    ensures
        drawn_sprite(entries, k, None, None) == entries[k],
        drawn_sprite(entries, k, Some(m), None) == 0,
        (forall|b: u8| b < 8 && #[trigger] has_bit(m, b) ==> has_bit(f[entries[k] as int], b)) ==> drawn_sprite(
            entries,
            k,
            Some(m),
            Some(f),
        ) == entries[k],
        (exists|b: u8| b < 8 && #[trigger] has_bit(m, b) && !has_bit(f[entries[k] as int], b)) ==> drawn_sprite(
            entries,
            k,
            Some(m),
            Some(f),
        ) == 0,
{
    lemma_holds_all_bits(f[entries[k] as int], m);
}

} // verus!
