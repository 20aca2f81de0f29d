//! Palettes: lists of colours as red, green, blue and alpha bytes.

use vstd::prelude::*;
use crate::api::{decimal, labelled_text, Error};
use crate::gfx::{bits_value, Gfx};

verus! {

/// The Pico-8 palette.
pub open spec fn pico8_palette() -> Seq<[u8; 4]> {
    seq![
        [0x00u8, 0x00, 0x00, 0xff],
        [0x1d, 0x2b, 0x53, 0xff],
        [0x7e, 0x25, 0x53, 0xff],
        [0x00, 0x87, 0x51, 0xff],
        [0xab, 0x52, 0x36, 0xff],
        [0x5f, 0x57, 0x4f, 0xff],
        [0xc2, 0xc3, 0xc7, 0xff],
        [0xff, 0xf1, 0xe8, 0xff],
        [0xff, 0x00, 0x4d, 0xff],
        [0xff, 0xa3, 0x00, 0xff],
        [0xff, 0xec, 0x27, 0xff],
        [0x00, 0xe4, 0x36, 0xff],
        [0x29, 0xad, 0xff, 0xff],
        [0x83, 0x76, 0x9c, 0xff],
        [0xff, 0x77, 0xa8, 0xff],
        [0xff, 0xcc, 0xaa, 0xff],
    ]
}

/// The colours of a palette.
#[derive(Debug, Clone)]
pub struct Palette {
    pub data: Vec<[u8; 4]>,
}

impl Palette {
    /// A palette of the given colours.
    pub fn from_slice(slice: &[[u8; 4]]) -> (r: Palette)
        ensures
            r.data@ == slice@,
    {
        let mut data: Vec<[u8; 4]> = Vec::new();
        let mut i: usize = 0;
        while i < slice.len()
            invariant
                i <= slice@.len(),
                data@ == slice@.subrange(0, i as int),
            decreases slice@.len() - i,
        {
            data.push(slice[i]);
            assert(data@ =~= slice@.subrange(0, i + 1));
            i = i + 1;
        }
        assert(slice@.subrange(0, slice@.len() as int) =~= slice@);
        Palette { data }
    }

    /// The Pico-8 palette.
    pub fn pico8() -> (r: Palette)
        ensures
            r.data@ == pico8_palette(),
    {
        let colors: [[u8; 4]; 16] = [
            [0x00, 0x00, 0x00, 0xff],
            [0x1d, 0x2b, 0x53, 0xff],
            [0x7e, 0x25, 0x53, 0xff],
            [0x00, 0x87, 0x51, 0xff],
            [0xab, 0x52, 0x36, 0xff],
            [0x5f, 0x57, 0x4f, 0xff],
            [0xc2, 0xc3, 0xc7, 0xff],
            [0xff, 0xf1, 0xe8, 0xff],
            [0xff, 0x00, 0x4d, 0xff],
            [0xff, 0xa3, 0x00, 0xff],
            [0xff, 0xec, 0x27, 0xff],
            [0x00, 0xe4, 0x36, 0xff],
            [0x29, 0xad, 0xff, 0xff],
            [0x83, 0x76, 0x9c, 0xff],
            [0xff, 0x77, 0xa8, 0xff],
            [0xff, 0xcc, 0xaa, 0xff],
        ];
        assert(colors@ =~= pico8_palette());
        Palette::from_slice(&colors)
    }

    /// Write the first bytes of colour `index` into `pixel_bytes`, as many as
    /// it holds, or report that there is no such colour.
    pub fn write_color(&self, index: usize, pixel_bytes: &mut [u8]) -> (r: Result<(), Error>)
        requires
            old(pixel_bytes)@.len() <= 4,
        ensures
            index < self.data@.len() ==> (r is Ok && final(pixel_bytes)@ == self.data@[index as int]@.subrange(
                0,
                old(pixel_bytes)@.len() as int,
            )),
            index >= self.data@.len() ==> (r matches Err(Error::NoSuch(s)) && s@ == "palette color "@
                + decimal(index as nat) && final(pixel_bytes)@ == old(pixel_bytes)@),
    {
        if index >= self.data.len() {
            return Err(Error::NoSuch(labelled_text("palette color ", index)));
        }
        let c = self.data[index];
        let n = pixel_bytes.len();
        let mut k: usize = 0;
        while k < n
            invariant
                n == pixel_bytes@.len(),
                n <= 4,
                k <= n,
                forall|j: int| 0 <= j < k ==> pixel_bytes@[j] == c@[j],
            decreases n - k,
        {
            pixel_bytes[k] = c[k];
            k = k + 1;
        }
        assert(pixel_bytes@ =~= c@.subrange(0, n as int));
        Ok(())
    }

    /// `color(n)`'s check of a pen: `n` must be a colour of the palette.
    pub fn check_color_index(&self, n: usize) -> (r: Result<(), Error>)
        ensures
            n < self.data@.len() ==> r is Ok,
            n >= self.data@.len() ==> (r matches Err(Error::NoSuch(s)) && s@ == "palette color index"@),
    {
        if n >= self.data.len() {
            proof {
                reveal_strlit("palette color index");
            }
            return Err(Error::NoSuch(String::from_str("palette color index")));
        }
        Ok(())
    }

    /// Colour `index`, or an error where there is no such colour.
    pub fn get_color(&self, index: usize) -> (r: Result<[u8; 4], Error>)
        ensures
            index < self.data@.len() ==> r == Ok::<[u8; 4], Error>(self.data@[index as int]),
            index >= self.data@.len() ==> (r matches Err(Error::NoSuch(s)) && s@ == "palette color "@
                + decimal(index as nat)),
    {
        if index < self.data.len() {
            Ok(self.data[index])
        } else {
            Err(Error::NoSuch(labelled_text("palette color ", index)))
        }
    }
}

/// The bytes of an image of `total` pixels whose first pixels have the
/// colour indices `ix` in palette `pal`: four bytes of colour per pixel, and
/// zeros for the pixels past the indices.
pub open spec fn colour_bytes(ix: Seq<u8>, pal: Seq<[u8; 4]>, total: nat) -> Seq<u8> {
    Seq::new(
        total * 4,
        |j: int|
            if j / 4 < ix.len() {
                pal[ix[j / 4] as int]@[j % 4]
            } else {
                0u8
            },
    )
}

/// The colour indices of an indexed image, pixel by pixel.
pub open spec fn gfx_indices<const N: usize>(gfx: Gfx<N>) -> Seq<u8> {
    Seq::new(gfx.pixels().len() / (N as nat), |i: int| bits_value(gfx.pixels(), i * N, N as nat) as u8)
}

/// Is `i` the first of `ix` that has no colour in a palette of `len` colours?
pub open spec fn first_missing(ix: Seq<u8>, len: int, i: int) -> bool {
    &&& 0 <= i < ix.len()
    &&& ix[i] >= len
    &&& forall|j: int| 0 <= j < i ==> #[trigger] ix[j] < len
}

/// The bytes of the image of an indexed image in a palette: four bytes of
/// colour per pixel, row by row, in an image of `width * height` pixels; or
/// the error of the first pixel whose colour the palette lacks.
pub fn image_bytes<const N: usize>(gfx: &Gfx<N>, palette: &Palette) -> (r: Result<Vec<u8>, Error>)
    requires
        0 < N <= 8,
        gfx.width * gfx.height * 4 <= usize::MAX,
        gfx.pixels().len() / (N as nat) <= gfx.width * gfx.height,
    ensures
        ({
            let ix = gfx_indices(*gfx);
            &&& (forall|i: int| 0 <= i < ix.len() ==> #[trigger] ix[i] < palette.data@.len()) ==> (r matches Ok(v)
                && v@ == colour_bytes(ix, palette.data@, (gfx.width * gfx.height) as nat))
            &&& (exists|i: int| 0 <= i < ix.len() && #[trigger] ix[i] >= palette.data@.len()) ==> (r matches Err(
                Error::NoSuch(s),
            ) && exists|i: int|
                first_missing(ix, palette.data@.len() as int, i) && s@ == "palette color "@ + decimal(
                    ix[i] as nat,
                ))
        }),
{
    let ix = gfx.color_indices();
    let ghost gi = gfx_indices(*gfx);
    assert(ix@ =~= gi);
    let total = gfx.width * gfx.height;
    let mut out: Vec<u8> = Vec::new();
    let mut i: usize = 0;
    while i < ix.len()
        invariant
            ix@ == gi,
            gi == gfx_indices(*gfx),
            ix@.len() <= total,
            total * 4 <= usize::MAX,
            i <= ix@.len(),
            out@.len() == 4 * i,
            forall|j: int| 0 <= j < i ==> #[trigger] ix@[j] < palette.data@.len(),
            forall|k: int| 0 <= k < 4 * i ==> #[trigger] out@[k] == palette.data@[ix@[k / 4] as int]@[k % 4],
        decreases ix@.len() - i,
    {
        let c = match palette.get_color(ix[i] as usize) {
            Ok(c) => c,
            Err(e) => {
                proof {
                    let len = palette.data@.len() as int;
                    assert(first_missing(gi, len, i as int));
                    assert(gi[i as int] >= len);
                    assert(e matches Error::NoSuch(t) && exists|j: int|
                        first_missing(gi, len, j) && t@ == "palette color "@ + decimal(gi[j] as nat));
                    assert(!(forall|j: int| 0 <= j < gi.len() ==> #[trigger] gi[j] < len));
                }
                return Err(e);
            },
        };
        let ghost before = out@;
        out.push(c[0]);
        out.push(c[1]);
        out.push(c[2]);
        out.push(c[3]);
        assert forall|k: int| 0 <= k < 4 * (i + 1) implies #[trigger] out@[k] == palette.data@[ix@[k / 4] as int]@[k % 4] by {
            if k >= 4 * i {
                assert(k / 4 == i);
            } else {
                assert(out@[k] == before[k]);
            }
        }
        i = i + 1;
    }
    while out.len() < total * 4
        invariant
            ix@ == gi,
            ix@.len() <= total,
            total * 4 <= usize::MAX,
            4 * ix@.len() <= out@.len() <= total * 4,
            forall|k: int| 0 <= k < 4 * ix@.len() ==> #[trigger] out@[k] == palette.data@[ix@[k / 4] as int]@[k % 4],
            forall|k: int| 4 * ix@.len() <= k < out@.len() ==> #[trigger] out@[k] == 0u8,
        decreases total * 4 - out@.len(),
    {
        out.push(0);
    }
    assert(out@ =~= colour_bytes(gi, palette.data@, total as nat));
    Ok(out)
}

/// The pen: a colour of the palette by its index, or a colour of its own
/// as red, green, blue and alpha bytes.
#[derive(Debug, Clone, Copy, PartialEq, Eq, Structural)]
pub enum Pen {
    Palette(usize),
    Color(u8, u8, u8, u8),
}

/// `color([c])`: the pen before the call; where a colour is given it becomes
/// the pen, unless it is a palette index that the palette lacks, which is an
/// error and leaves the pen as it was.
pub fn color(pen: &mut Pen, c: Option<Pen>, palette: &Palette) -> (r: Result<Pen, Error>)
    ensures
        match c {
            None => r == Ok::<Pen, Error>(*old(pen)) && *final(pen) == *old(pen),
            Some(Pen::Palette(n)) => if n < palette.data@.len() {
                r == Ok::<Pen, Error>(*old(pen)) && *final(pen) == Pen::Palette(n)
            } else {
                (r matches Err(Error::NoSuch(s)) && s@ == "palette color index"@) && *final(pen) == *old(pen)
            },
            Some(Pen::Color(r0, g0, b0, a0)) => r == Ok::<Pen, Error>(*old(pen)) && *final(pen) == Pen::Color(
                r0,
                g0,
                b0,
                a0,
            ),
        },
{
    let last = *pen;
    match c {
        None => Ok(last),
        Some(new) => {
            match new {
                Pen::Palette(n) => {
                    match palette.check_color_index(n) {
                        Ok(()) => {},
                        Err(e) => {
                            return Err(e);
                        },
                    }
                },
                Pen::Color(..) => {},
            }
            *pen = new;
            Ok(last)
        },
    }
}

} // verus!
