//! Reading and writing single pixels of an image held as bytes.

use vstd::prelude::*;
use vstd::std_specs::convert::FromSpecImpl;

verus! {

/// Why a pixel cannot be read or written.
#[derive(Debug, Clone, Copy, PartialEq, Eq, Structural)]
pub enum PixelError {
    CompressionNotSupported,
    DepthNotSupported,
    StencilNotSupported,
    InvalidLocation,
    AlignmentFailed,
    InvalidRange,
    WidthNotDivisible,
}

impl PixelError {
    /// What the error says.
    pub fn message(&self) -> (r: &'static str)
        ensures
            match self {
                PixelError::CompressionNotSupported => r@
                    == "pixel operations not supported for compressed images"@,
                PixelError::DepthNotSupported => r@ == "pixel operations not supported for depth images"@,
                PixelError::StencilNotSupported => r@
                    == "pixel operations not supported for stencil images"@,
                PixelError::InvalidLocation => r@ == "no such pixel location"@,
                PixelError::AlignmentFailed => r@ == "could not align pixel data"@,
                PixelError::InvalidRange => r@ == "invalid range"@,
                PixelError::WidthNotDivisible => r@
                    == "given image width cannot cleanly divide pixel count to determine image height"@,
            },
    {
        match self {
            PixelError::CompressionNotSupported => "pixel operations not supported for compressed images",
            PixelError::DepthNotSupported => "pixel operations not supported for depth images",
            PixelError::StencilNotSupported => "pixel operations not supported for stencil images",
            PixelError::InvalidLocation => "no such pixel location",
            PixelError::AlignmentFailed => "could not align pixel data",
            PixelError::InvalidRange => "invalid range",
            PixelError::WidthNotDivisible => "given image width cannot cleanly divide pixel count to determine image height",
        }
    }
}

/// Where a pixel is: by its index, or by its column and row.
#[derive(Debug, Clone, Copy, PartialEq, Eq, Structural)]
pub enum PixelLoc {
    Linear { index: usize },
    Cartesian { x: usize, y: usize },
}

/// The index of a location in an image of `width` by `height` pixels, where it lies inside.
pub open spec fn loc_index(loc: PixelLoc, width: int, height: int) -> Option<int> {
    match loc {
        PixelLoc::Linear { index } => if index < width * height {
            Some(index as int)
        } else {
            None
        },
        PixelLoc::Cartesian { x, y } => if x < width && y < height {
            Some(y * width + x)
        } else {
            None
        },
    }
}

/// An index inside an image is below its pixel count.
pub proof fn lemma_loc_index_bound(loc: PixelLoc, width: int, height: int)
    requires
        0 <= width,
        0 <= height,
    ensures
        loc_index(loc, width, height) matches Some(i) ==> 0 <= i < width * height,
{
    match loc {
        PixelLoc::Cartesian { x, y } => {
            if x < width && y < height {
                assert(y * width + x < width * height) by (nonlinear_arith)
                    requires
                        0 <= x < width,
                        0 <= y < height,
                ;
            }
        },
        _ => {},
    }
}

impl PixelLoc {
    /// The index of this location in an image of `width` by `height` pixels,
    /// or `None` where it lies outside.
    pub fn index(&self, width: u32, height: u32) -> (r: Option<usize>)
        requires
            width * height <= u32::MAX,
        ensures
            match loc_index(*self, width as int, height as int) {
                Some(i) => r == Some(i as usize),
                None => r is None,
            },
    {
        match *self {
            PixelLoc::Linear { index } => {
                if index < (width * height) as usize {
                    Some(index)
                } else {
                    None
                }
            },
            PixelLoc::Cartesian { x, y } => {
                if x < width as usize && y < height as usize {
                    proof {
                        vstd::arithmetic::mul::lemma_mul_inequality(y as int, height as int - 1, width as int);
                        vstd::arithmetic::mul::lemma_mul_is_distributive_sub(width as int, height as int, 1);
                        vstd::arithmetic::mul::lemma_mul_is_commutative(width as int, height as int - 1);
                        vstd::arithmetic::mul::lemma_mul_is_commutative(width as int, height as int);
                    }
                    Some(y * width as usize + x)
                } else {
                    None
                }
            },
        }
    }
}

impl From<usize> for PixelLoc {
    fn from(index: usize) -> (r: PixelLoc) {
        PixelLoc::Linear { index }
    }
}

impl FromSpecImpl<usize> for PixelLoc {
    open spec fn obeys_from_spec() -> bool {
        true
    }

    open spec fn from_spec(index: usize) -> PixelLoc {
        PixelLoc::Linear { index }
    }
}

impl From<(usize, usize)> for PixelLoc {
    fn from(v: (usize, usize)) -> (r: PixelLoc) {
        PixelLoc::Cartesian { x: v.0, y: v.1 }
    }
}

impl FromSpecImpl<(usize, usize)> for PixelLoc {
    open spec fn obeys_from_spec() -> bool {
        true
    }

    open spec fn from_spec(v: (usize, usize)) -> PixelLoc {
        PixelLoc::Cartesian { x: v.0, y: v.1 }
    }
}

/// The kinds of texture format that pixel access tells apart.
#[derive(Debug, Clone, Copy, PartialEq, Eq, Structural)]
pub enum FormatClass {
    Rgba8Unorm,
    Rgba8UnormSrgb,
    Compressed,
    Depth,
    Stencil,
}

/// An image as bytes: its format, size, bytes per pixel and data.
pub struct PixelImage {
    pub format: FormatClass,
    pub width: u32,
    pub height: u32,
    pub pixel_size: usize,
    pub data: Vec<u8>,
}

/// A colour as the bytes of each of the two eight-bit formats.
#[derive(Debug, Clone, Copy)]
pub struct PixelColor {
    pub linear: [u8; 4],
    pub srgb: [u8; 4],
}

/// The four bytes from `start` on.
pub open spec fn four_bytes(d: Seq<u8>, start: int) -> Seq<u8> {
    d.subrange(start, start + 4)
}

/// `d` with the four bytes from `start` on replaced by `c`.
pub open spec fn with_four_bytes(d: Seq<u8>, start: int, c: Seq<u8>) -> Seq<u8> {
    d.subrange(0, start) + c + d.subrange(start + 4, d.len() as int)
}

/// The error of a format that pixel access does not support, if it is one.
pub open spec fn format_error(f: FormatClass) -> Option<PixelError> {
    match f {
        FormatClass::Compressed => Some(PixelError::CompressionNotSupported),
        FormatClass::Depth => Some(PixelError::DepthNotSupported),
        FormatClass::Stencil => Some(PixelError::StencilNotSupported),
        _ => None,
    }
}

impl PixelImage {
    /// Eight-bit colour images have four bytes per pixel, for every pixel.
    pub open spec fn wf(&self) -> bool {
        &&& self.width * self.height <= u32::MAX
        &&& format_error(self.format) is None ==> self.pixel_size == 4 && self.data@.len() == 4
            * self.width * self.height
    }

    /// Read the bytes of a pixel, at the pixel's index times the pixel size,
    /// where a write puts them.
    pub fn get_pixel(&self, loc: PixelLoc) -> (r: Result<[u8; 4], PixelError>)
        requires
            self.wf(),
        ensures
            match loc_index(loc, self.width as int, self.height as int) {
                None => r == Err::<[u8; 4], PixelError>(PixelError::InvalidLocation),
                Some(i) => match format_error(self.format) {
                    Some(e) => r == Err::<[u8; 4], PixelError>(e),
                    None => r matches Ok(a) && a@ == four_bytes(self.data@, 4 * i),
                },
            },
    {
        let start = match loc.index(self.width, self.height) {
            Some(i) => i,
            None => {
                return Err(PixelError::InvalidLocation);
            },
        };
        match self.format {
            FormatClass::Rgba8Unorm | FormatClass::Rgba8UnormSrgb => {
                proof {
                    vstd::arithmetic::mul::lemma_mul_is_associative(4, self.width as int, self.height as int);
                    lemma_loc_index_bound(loc, self.width as int, self.height as int);
                    assert(4 * start + 4 <= 4 * (self.width * self.height));
                }
                let len = self.data.len();
                assert(4 * start + 4 <= len);
                let at = start * 4;
                let a = [self.data[at], self.data[at + 1], self.data[at + 2], self.data[at + 3]];
                assert(a@ =~= four_bytes(self.data@, 4 * start));
                Ok(a)
            },
            FormatClass::Compressed => Err(PixelError::CompressionNotSupported),
            FormatClass::Depth => Err(PixelError::DepthNotSupported),
            FormatClass::Stencil => Err(PixelError::StencilNotSupported),
        }
    }

    /// Write a pixel: the bytes of the colour in the image's format, at the
    /// pixel's index times the pixel size.
    pub fn set_pixel(&mut self, loc: PixelLoc, color: PixelColor) -> (r: Result<(), PixelError>)
        requires
            old(self).wf(),
        ensures
            final(self).wf(),
            final(self).format == old(self).format,
            final(self).width == old(self).width,
            final(self).height == old(self).height,
            final(self).pixel_size == old(self).pixel_size,
            match loc_index(loc, old(self).width as int, old(self).height as int) {
                None => r == Err::<(), PixelError>(PixelError::InvalidLocation) && final(self).data@
                    == old(self).data@,
                Some(i) => match format_error(old(self).format) {
                    Some(e) => r == Err::<(), PixelError>(e) && final(self).data@ == old(self).data@,
                    None => r is Ok && final(self).data@ == with_four_bytes(
                        old(self).data@,
                        4 * i,
                        if old(self).format == FormatClass::Rgba8Unorm {
                            color.linear@
                        } else {
                            color.srgb@
                        },
                    ),
                },
            },
    {
        let index = match loc.index(self.width, self.height) {
            Some(i) => i,
            None => {
                return Err(PixelError::InvalidLocation);
            },
        };
        let bytes = match self.format {
            FormatClass::Rgba8Unorm => color.linear,
            FormatClass::Rgba8UnormSrgb => color.srgb,
            FormatClass::Compressed => {
                return Err(PixelError::CompressionNotSupported);
            },
            FormatClass::Depth => {
                return Err(PixelError::DepthNotSupported);
            },
            FormatClass::Stencil => {
                return Err(PixelError::StencilNotSupported);
            },
        };
        proof {
            vstd::arithmetic::mul::lemma_mul_is_associative(4, self.width as int, self.height as int);
            lemma_loc_index_bound(loc, self.width as int, self.height as int);
            assert(4 * index + 4 <= 4 * (self.width * self.height));
        }
        let len = self.data.len();
        assert(self.pixel_size == 4);
        assert(4 * index + 4 <= len);
        let start = index * self.pixel_size;
        let ghost before = self.data@;
        let mut k: usize = 0;
        while k < 4
            invariant
                k <= 4,
                start + 4 <= before.len(),
                before.len() <= usize::MAX,
                before == old(self).data@,
                self.width == old(self).width,
                self.height == old(self).height,
                self.format == old(self).format,
                self.pixel_size == old(self).pixel_size,
                self.data@.len() == before.len(),
                forall|j: int| 0 <= j < start ==> #[trigger] self.data@[j] == before[j],
                forall|j: int| start + 4 <= j < before.len() ==> #[trigger] self.data@[j] == before[j],
                forall|j: int| start <= j < start + k ==> #[trigger] self.data@[j] == bytes@[j - start],
                forall|j: int| start + k <= j < start + 4 ==> #[trigger] self.data@[j] == before[j],
            decreases 4 - k,
        {
            self.data.set(start + k, bytes[k]);
            k = k + 1;
        }
        assert(self.data@ =~= with_four_bytes(before, start as int, bytes@));
        Ok(())
    }
}

/// A pixel read back after it was written gives the written bytes, and
/// every other pixel reads as before.
pub proof fn lemma_read_after_write(d: Seq<u8>, i: int, c: Seq<u8>, j: int)
    requires
        0 <= i,
        4 * i + 4 <= d.len(),
        c.len() == 4,
        0 <= j,
        4 * j + 4 <= d.len(),
    ensures
        four_bytes(with_four_bytes(d, 4 * i, c), 4 * i) == c,
        j != i ==> four_bytes(with_four_bytes(d, 4 * i, c), 4 * j) == four_bytes(d, 4 * j),
{
    let w = with_four_bytes(d, 4 * i, c);
    assert(four_bytes(w, 4 * i) =~= c);
    if j != i {
        assert(four_bytes(w, 4 * j) =~= four_bytes(d, 4 * j));
    }
}

} // verus!
