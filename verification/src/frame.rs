//! The pixel model: an RGBA8 buffer in row-major order, four bytes per
//! pixel.  Every image the library handles — decoded sources handed in by
//! the host, letterboxed canvases, blended fade frames — is one of these.

use vstd::prelude::*;

verus! {

/// One RGBA colour, eight bits per channel.
#[derive(Clone, Copy, PartialEq, Eq, Structural, Debug)]
pub struct Rgba {
    pub r: u8,
    pub g: u8,
    pub b: u8,
    pub a: u8,
}

/// Opaque black, the letterbox border colour.
pub open spec fn spec_black() -> Rgba {
    Rgba { r: 0, g: 0, b: 0, a: 255 }
}

pub fn black() -> (c: Rgba)
    ensures
        c == spec_black(),
{
    Rgba { r: 0, g: 0, b: 0, a: 255 }
}

/// The channel of `c` selected by byte offset `k` within a pixel:
/// red, green, blue, alpha in order.
pub open spec fn chan_of(c: Rgba, k: int) -> u8 {
    if k == 0 {
        c.r
    } else if k == 1 {
        c.g
    } else if k == 2 {
        c.b
    } else {
        c.a
    }
}

/// An RGBA8 pixel buffer of fixed dimensions.
#[derive(Clone, Debug, PartialEq, Eq)]
pub struct Frame {
    pub width: u32,
    pub height: u32,
    pub pixels: Vec<u8>,
}

impl Frame {
    /// The buffer holds exactly four bytes per pixel.
    pub open spec fn wf(&self) -> bool {
        self.pixels@.len() == 4 * self.width * self.height
    }

    /// Byte offset of the first channel of pixel (`x`, `y`).
    pub open spec fn pixel_index(&self, x: int, y: int) -> int {
        4 * (y * self.width + x)
    }

    /// The colour of pixel (`x`, `y`).
    pub open spec fn pixel_at(&self, x: int, y: int) -> Rgba {
        Rgba {
            r: self.pixels@[self.pixel_index(x, y)],
            g: self.pixels@[self.pixel_index(x, y) + 1],
            b: self.pixels@[self.pixel_index(x, y) + 2],
            a: self.pixels@[self.pixel_index(x, y) + 3],
        }
    }

    /// A frame over `pixels`, provided the buffer length matches the
    /// dimensions exactly; `None` otherwise.
    pub fn new(width: u32, height: u32, pixels: Vec<u8>) -> (r: Option<Frame>)
        ensures
            r is Some <==> pixels@.len() == 4 * width * height,
            r is Some ==> ({
                let f = r->Some_0;
                &&& f.wf()
                &&& f.width == width
                &&& f.height == height
                &&& f.pixels@ == pixels@
            }),
    {
        proof {
            lemma_frame_bytes_fit(width as int, height as int);
        }
        if pixels.len() as u128 == 4 * (width as u128) * (height as u128) {
            Some(Frame { width, height, pixels })
        } else {
            None
        }
    }

    /// A frame of the given dimensions filled with one colour, or `None`
    /// where the byte count would not fit in a `usize`.
    pub fn filled(width: u32, height: u32, color: Rgba) -> (r: Option<Frame>)
        ensures
            r is Some <==> 4 * width * height <= usize::MAX,
            r is Some ==> ({
                let f = r->Some_0;
                &&& f.wf()
                &&& f.width == width
                &&& f.height == height
                &&& forall|k: int| 0 <= k < f.pixels@.len() ==> f.pixels@[k] == chan_of(color, k % 4)
            }),
    {
        proof {
            lemma_frame_bytes_fit(width as int, height as int);
        }
        let total128: u128 = 4 * (width as u128) * (height as u128);
        if total128 > usize::MAX as u128 {
            return None;
        }
        let total = total128 as usize;
        proof {
            vstd::arithmetic::div_mod::lemma_mod_multiples_basic(
                (width as int) * (height as int),
                4,
            );
            vstd::arithmetic::mul::lemma_mul_is_commutative(
                (width as int) * (height as int),
                4,
            );
            vstd::arithmetic::mul::lemma_mul_is_associative(4, width as int, height as int);
            assert(total as int % 4 == 0);
        }
        let mut pixels: Vec<u8> = Vec::new();
        let mut i: usize = 0;
        while i < total
            invariant
                i <= total,
                i % 4 == 0,
                total % 4 == 0,
                total == 4 * width * height,
                pixels@.len() == i,
                forall|k: int| 0 <= k < pixels@.len() ==> pixels@[k] == chan_of(color, k % 4),
            decreases total - i,
        {
            pixels.push(color.r);
            pixels.push(color.g);
            pixels.push(color.b);
            pixels.push(color.a);
            i = i + 4;
        }
        Some(Frame { width, height, pixels })
    }

    /// The colour of pixel (`x`, `y`).
    pub fn pixel(&self, x: u32, y: u32) -> (c: Rgba)
        requires
            self.wf(),
            x < self.width,
            y < self.height,
        ensures
            c == self.pixel_at(x as int, y as int),
    {
        let n = self.pixels.len();
        proof {
            lemma_pixel_index_in_bounds(self.width as int, self.height as int, x as int, y as int);
            assert(4 * ((y as int) * (self.width as int) + (x as int)) + 4 <= n);
        }
        let base = 4 * ((y as usize) * (self.width as usize) + (x as usize));
        Rgba {
            r: self.pixels[base],
            g: self.pixels[base + 1],
            b: self.pixels[base + 2],
            a: self.pixels[base + 3],
        }
    }
}

/// The byte count of a frame with dimensions bounded by `u32` fits well
/// inside a `u128`.
proof fn lemma_frame_bytes_fit(w: int, h: int)
    requires
        0 <= w <= u32::MAX,
        0 <= h <= u32::MAX,
    ensures
        0 <= 4 * w * h <= 4 * 0xffff_ffff * 0xffff_ffff,
{
    assert(0 <= 4 * w * h <= 4 * 0xffff_ffff * 0xffff_ffff) by (nonlinear_arith)
        requires
            0 <= w <= 0xffff_ffff,
            0 <= h <= 0xffff_ffff,
    ;
}

/// For a pixel inside a `w` by `h` frame, the byte offset of its first
/// channel lies at least four bytes before the end of the buffer.
pub proof fn lemma_pixel_index_in_bounds(w: int, h: int, x: int, y: int)
    requires
        0 <= x < w,
        0 <= y < h,
    ensures
        0 <= 4 * (y * w + x),
        4 * (y * w + x) + 4 <= 4 * w * h,
{
    assert(4 * (y * w + x) + 4 <= 4 * w * h) by (nonlinear_arith)
        requires
            0 <= x < w,
            0 <= y < h,
    ;
    assert(0 <= 4 * (y * w + x)) by (nonlinear_arith)
        requires
            0 <= x,
            0 <= y,
            0 <= w,
    ;
}

} // verus!
