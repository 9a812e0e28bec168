//! Fitting a decoded image to the display: a uniform scale that
//! preserves the aspect ratio and never overflows the canvas in either
//! dimension, the centering offsets, and the composition of the scaled
//! image onto an opaque black canvas.  The resampling pass itself is the
//! image crate's work; everything around it is verified.

use vstd::prelude::*;

use crate::frame::chan_of;
use crate::frame::spec_black;
use crate::frame::Frame;

verus! {

/// Why a fit request is rejected.
#[derive(Clone, Copy, PartialEq, Eq, Structural, Debug)]
pub enum FitError {
    /// A source or canvas dimension is zero, or the canvas byte count
    /// exceeds what this machine can address.
    InvalidDimensions,
}

/// The geometry of a source image letterboxed into a canvas: the scale
/// as an exact fraction, the scaled dimensions, and the centering
/// offsets.
#[derive(Clone, Copy, PartialEq, Eq, Structural, Debug)]
pub struct FitGeometry {
    pub scale_num: u32,
    pub scale_den: u32,
    pub width: u32,
    pub height: u32,
    pub offset_x: u32,
    pub offset_y: u32,
}

/// The geometry of fitting a `sw` by `sh` source into a `tw` by `th`
/// canvas: the scale is the smaller of `tw / sw` and `th / sh` (compared
/// exactly by cross-multiplication), the scaled image fills the limiting
/// dimension exactly, and the remaining border is split evenly.
pub open spec fn spec_fit(sw: int, sh: int, tw: int, th: int) -> FitGeometry {
    if tw * sh <= th * sw {
        let height = sh * tw / sw;
        FitGeometry {
            scale_num: tw as u32,
            scale_den: sw as u32,
            width: tw as u32,
            height: height as u32,
            offset_x: 0,
            offset_y: ((th - height) / 2) as u32,
        }
    } else {
        let width = sw * th / sh;
        FitGeometry {
            scale_num: th as u32,
            scale_den: sh as u32,
            width: width as u32,
            height: th as u32,
            offset_x: ((tw - width) / 2) as u32,
            offset_y: 0,
        }
    }
}

/// A scaled dimension never exceeds the canvas: `sh * tw / sw <= th`
/// whenever `tw * sh <= th * sw`.
proof fn lemma_scaled_dimension_fits(sw: int, sh: int, tw: int, th: int)
    requires
        1 <= sw,
        0 <= sh,
        0 <= tw,
        0 <= th,
        tw * sh <= th * sw,
    ensures
        0 <= sh * tw / sw <= th,
{
    vstd::arithmetic::mul::lemma_mul_is_commutative(tw, sh);
    vstd::arithmetic::div_mod::lemma_div_is_ordered(sh * tw, th * sw, sw);
    vstd::arithmetic::mul::lemma_mul_is_commutative(th, sw);
    vstd::arithmetic::div_mod::lemma_div_multiples_vanish(th, sw);
    vstd::arithmetic::mul::lemma_mul_nonnegative(sh, tw);
    vstd::arithmetic::div_mod::lemma_div_pos_is_pos(sh * tw, sw);
}

/// Compute the letterbox geometry.  Succeeds exactly when every
/// dimension is positive; the result is the pure function `spec_fit` of
/// the inputs, so equal inputs always yield identical geometry.
pub fn fit(sw: u32, sh: u32, tw: u32, th: u32) -> (r: Result<FitGeometry, FitError>)
    ensures
        r is Ok <==> (sw > 0 && sh > 0 && tw > 0 && th > 0),
        r matches Err(e) ==> e == FitError::InvalidDimensions,
        r matches Ok(g) ==> ({
            &&& g == spec_fit(sw as int, sh as int, tw as int, th as int)
            &&& g.width <= tw
            &&& g.height <= th
            &&& g.offset_x + g.width <= tw
            &&& g.offset_y + g.height <= th
            &&& g.scale_den > 0
        }),
{
    if sw == 0 || sh == 0 || tw == 0 || th == 0 {
        return Err(FitError::InvalidDimensions);
    }
    proof {
        vstd::arithmetic::mul::lemma_mul_upper_bound(
            tw as int,
            u32::MAX as int,
            sh as int,
            u32::MAX as int,
        );
        vstd::arithmetic::mul::lemma_mul_upper_bound(
            th as int,
            u32::MAX as int,
            sw as int,
            u32::MAX as int,
        );
        vstd::arithmetic::mul::lemma_mul_upper_bound(
            sw as int,
            u32::MAX as int,
            th as int,
            u32::MAX as int,
        );
        vstd::arithmetic::mul::lemma_mul_upper_bound(
            sh as int,
            u32::MAX as int,
            tw as int,
            u32::MAX as int,
        );
    }
    if (tw as u64) * (sh as u64) <= (th as u64) * (sw as u64) {
        proof {
            lemma_scaled_dimension_fits(sw as int, sh as int, tw as int, th as int);
            vstd::arithmetic::mul::lemma_mul_is_commutative(sh as int, tw as int);
        }
        let height = ((sh as u64) * (tw as u64) / (sw as u64)) as u32;
        Ok(
            FitGeometry {
                scale_num: tw,
                scale_den: sw,
                width: tw,
                height,
                offset_x: 0,
                offset_y: (th - height) / 2,
            },
        )
    } else {
        proof {
            lemma_scaled_dimension_fits(sh as int, sw as int, th as int, tw as int);
            vstd::arithmetic::mul::lemma_mul_is_commutative(sw as int, th as int);
            vstd::arithmetic::mul::lemma_mul_is_commutative(tw as int, sh as int);
            vstd::arithmetic::mul::lemma_mul_is_commutative(th as int, sw as int);
        }
        let width = ((sw as u64) * (th as u64) / (sh as u64)) as u32;
        Ok(
            FitGeometry {
                scale_num: th,
                scale_den: sh,
                width,
                height: th,
                offset_x: (tw - width) / 2,
                offset_y: 0,
            },
        )
    }
}

/// Fitting is pure and deterministic: two fits of the same source and
/// canvas dimensions yield identical geometry — the same scale and the
/// same offsets.
pub proof fn lemma_fit_deterministic(
    sw: int,
    sh: int,
    tw: int,
    th: int,
    g1: FitGeometry,
    g2: FitGeometry,
)
    requires
        g1 == spec_fit(sw, sh, tw, th),
        g2 == spec_fit(sw, sh, tw, th),
    ensures
        g1 == g2,
{
}

/// What the image crate's Catmull-Rom resampling pass returns for a
/// given RGBA8 buffer and target dimensions.  The value is fixed by the
/// arguments alone; only its length is stated.
pub uninterp spec fn resample_of(pixels: Seq<u8>, sw: int, sh: int, nw: int, nh: int) -> Seq<u8>;

/// Relies on image's `imageops::resize` with the Catmull-Rom filter: a
/// pure resampling pass over the pixel values that returns a buffer of
/// exactly the requested dimensions.
#[verifier::external_body]
fn resample(frame: &Frame, nw: u32, nh: u32) -> (r: Vec<u8>)
    requires
        frame.wf(),
    ensures
        r@.len() == 4 * nw * nh,
        r@ == resample_of(
            frame.pixels@,
            frame.width as int,
            frame.height as int,
            nw as int,
            nh as int,
        ),
{
    let img: image::RgbaImage = image::RgbaImage::from_raw(
        frame.width,
        frame.height,
        frame.pixels.clone(),
    ).unwrap();
    let resized = image::imageops::resize(&img, nw, nh, image::imageops::FilterType::CatmullRom);
    resized.into_raw()
}

/// The letterboxed canvas: byte `k` belongs to pixel `k / 4`, channel
/// `k % 4`; pixels covered by the scaled image take its bytes, every
/// other pixel is opaque black.
pub open spec fn letterbox_pixels(
    scaled: Seq<u8>,
    sw: int,
    sh: int,
    tw: int,
    th: int,
    ox: int,
    oy: int,
) -> Seq<u8> {
    Seq::new(
        (4 * tw * th) as nat,
        |k: int|
            {
                let p = k / 4;
                let c = k % 4;
                let x = p % tw;
                let y = p / tw;
                if ox <= x < ox + sw && oy <= y < oy + sh {
                    scaled[4 * ((y - oy) * sw + (x - ox)) + c]
                } else {
                    chan_of(spec_black(), c)
                }
            },
    )
}

/// Byte `4 * (y * tw + x) + c` of a canvas belongs to pixel (`x`, `y`),
/// channel `c`.
proof fn lemma_canvas_byte_position(tw: int, x: int, y: int, c: int)
    requires
        0 <= c < 4,
        0 <= x < tw,
        0 <= y,
    ensures
        (4 * (y * tw + x) + c) / 4 == y * tw + x,
        (4 * (y * tw + x) + c) % 4 == c,
        (y * tw + x) % tw == x,
        (y * tw + x) / tw == y,
{
    vstd::arithmetic::mul::lemma_mul_nonnegative(y, tw);
    vstd::arithmetic::mul::lemma_mul_is_commutative(y * tw + x, 4);
    vstd::arithmetic::div_mod::lemma_fundamental_div_mod_converse(
        4 * (y * tw + x) + c,
        4,
        y * tw + x,
        c,
    );
    vstd::arithmetic::div_mod::lemma_fundamental_div_mod_converse(y * tw + x, tw, y, x);
}

/// Centre the scaled image on a `tw` by `th` canvas at the given
/// offsets, filling the border with opaque black.
pub fn letterbox(scaled: &Frame, tw: u32, th: u32, ox: u32, oy: u32) -> (r: Frame)
    requires
        scaled.wf(),
        ox + scaled.width <= tw,
        oy + scaled.height <= th,
        4 * tw * th <= usize::MAX,
    ensures
        r.wf(),
        r.width == tw,
        r.height == th,
        r.pixels@ == letterbox_pixels(
            scaled.pixels@,
            scaled.width as int,
            scaled.height as int,
            tw as int,
            th as int,
            ox as int,
            oy as int,
        ),
{
    let ghost lp = letterbox_pixels(
        scaled.pixels@,
        scaled.width as int,
        scaled.height as int,
        tw as int,
        th as int,
        ox as int,
        oy as int,
    );
    let mut out: Vec<u8> = Vec::new();
    let mut y: u32 = 0;
    while y < th
        invariant
            y <= th,
            scaled.wf(),
            ox + scaled.width <= tw,
            oy + scaled.height <= th,
            4 * tw * th <= usize::MAX,
            lp == letterbox_pixels(
                scaled.pixels@,
                scaled.width as int,
                scaled.height as int,
                tw as int,
                th as int,
                ox as int,
                oy as int,
            ),
            out@.len() == 4 * (y as int * tw as int),
            forall|k: int| 0 <= k < out@.len() ==> out@[k] == lp[k],
        decreases th - y,
    {
        proof {
            vstd::arithmetic::mul::lemma_mul_inequality(y as int + 1, th as int, tw as int);
            vstd::arithmetic::mul::lemma_mul_is_distributive_add_other_way(
                tw as int,
                y as int,
                1,
            );
            vstd::arithmetic::mul::lemma_mul_is_commutative(th as int, tw as int);
            vstd::arithmetic::mul::lemma_mul_is_associative(4, tw as int, th as int);
            vstd::arithmetic::mul::lemma_mul_nonnegative(y as int, tw as int);
        }
        let mut x: u32 = 0;
        while x < tw
            invariant
                x <= tw,
                y < th,
                scaled.wf(),
                ox + scaled.width <= tw,
                oy + scaled.height <= th,
                4 * tw * th <= usize::MAX,
                (y as int + 1) * tw as int <= th as int * tw as int,
                4 * (th as int * tw as int) <= 4 * tw * th,
                lp == letterbox_pixels(
                    scaled.pixels@,
                    scaled.width as int,
                    scaled.height as int,
                    tw as int,
                    th as int,
                    ox as int,
                    oy as int,
                ),
                out@.len() == 4 * (y as int * tw as int + x as int),
                forall|k: int| 0 <= k < out@.len() ==> out@[k] == lp[k],
            decreases tw - x,
        {
            let ghost base = 4 * (y as int * tw as int + x as int);
            proof {
                lemma_canvas_byte_position(tw as int, x as int, y as int, 0);
                lemma_canvas_byte_position(tw as int, x as int, y as int, 1);
                lemma_canvas_byte_position(tw as int, x as int, y as int, 2);
                lemma_canvas_byte_position(tw as int, x as int, y as int, 3);
                vstd::arithmetic::mul::lemma_mul_is_distributive_add_other_way(
                    tw as int,
                    y as int,
                    1,
                );
                assert(base + 4 <= lp.len());
            }
            if x >= ox && x - ox < scaled.width && y >= oy && y - oy < scaled.height {
                let c = scaled.pixel(x - ox, y - oy);
                out.push(c.r);
                out.push(c.g);
                out.push(c.b);
                out.push(c.a);
            } else {
                out.push(0);
                out.push(0);
                out.push(0);
                out.push(255);
            }
            proof {
                assert(out@[base] == lp[base]);
                assert(out@[base + 1] == lp[base + 1]);
                assert(out@[base + 2] == lp[base + 2]);
                assert(out@[base + 3] == lp[base + 3]);
            }
            x = x + 1;
        }
        y = y + 1;
    }
    proof {
        vstd::arithmetic::mul::lemma_mul_is_commutative(th as int, tw as int);
        vstd::arithmetic::mul::lemma_mul_is_associative(4, tw as int, th as int);
        assert(out@ =~= lp);
    }
    Frame { width: tw, height: th, pixels: out }
}

/// The whole fitting pipeline: compute the geometry, resample the
/// source to the scaled dimensions, and centre the result on an opaque
/// black canvas.  Succeeds exactly when every dimension is positive and
/// the canvas is addressable.
pub fn fit_frame(src: &Frame, tw: u32, th: u32) -> (r: Result<Frame, FitError>)
    requires
        src.wf(),
    ensures
        r is Ok <==> (src.width > 0 && src.height > 0 && tw > 0 && th > 0 && 4 * tw * th
            <= usize::MAX),
        r matches Err(e) ==> e == FitError::InvalidDimensions,
        r matches Ok(f) ==> ({
            let g = spec_fit(src.width as int, src.height as int, tw as int, th as int);
            &&& f.wf()
            &&& f.width == tw
            &&& f.height == th
            &&& f.pixels@ == letterbox_pixels(
                resample_of(
                    src.pixels@,
                    src.width as int,
                    src.height as int,
                    g.width as int,
                    g.height as int,
                ),
                g.width as int,
                g.height as int,
                tw as int,
                th as int,
                g.offset_x as int,
                g.offset_y as int,
            )
        }),
{
    proof {
        vstd::arithmetic::mul::lemma_mul_upper_bound(
            4 * tw as int,
            4 * u32::MAX as int,
            th as int,
            u32::MAX as int,
        );
    }
    if 4 * (tw as u128) * (th as u128) > usize::MAX as u128 {
        return Err(FitError::InvalidDimensions);
    }
    let g = match fit(src.width, src.height, tw, th) {
        Ok(g) => g,
        Err(e) => {
            return Err(e);
        },
    };
    let resampled = resample(src, g.width, g.height);
    let scaled = Frame { width: g.width, height: g.height, pixels: resampled };
    Ok(letterbox(&scaled, tw, th, g.offset_x, g.offset_y))
}

} // verus!
