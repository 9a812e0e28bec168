//! The fade transition: a linear alpha cross-dissolve from the previous
//! image (or opaque black when there is none) to the new one.  Each step
//! blends a full frame on the CPU with an exact per-channel integer
//! formula and emits it as one draw operation.

use vstd::prelude::*;

use crate::canvas::Canvas;
use crate::canvas::DrawOp;
use crate::frame::Frame;

verus! {

/// The opacity range of the dissolve: `alpha` runs from 0 to 255.
pub const FADE_ALPHA_MAX: u32 = 255;

/// Fixed opacity increment per step.
pub const FADE_STEP: u32 = 1;

/// One colour channel of the dissolve at opacity `alpha`: the outgoing
/// value weighted by `255 - alpha` plus the incoming value weighted by
/// `alpha`, each term divided by 255 with truncation.
pub open spec fn spec_blend(from: int, to: int, alpha: int) -> int {
    from * (255 - alpha) / 255 + to * alpha / 255
}

/// The byte the outgoing image contributes at offset `i`: its own byte
/// where there is a previous image, black (zero) where there is none.
pub open spec fn outgoing_byte(last: Option<Frame>, i: int) -> int {
    match last {
        Some(l) => l.pixels@[i] as int,
        None => 0,
    }
}

/// The full blended buffer at opacity `alpha`: red, green and blue bytes
/// dissolve from the outgoing image to `cur`; alpha bytes are taken from
/// `cur` unchanged.
pub open spec fn blended_pixels(last: Option<Frame>, cur: Frame, alpha: int) -> Seq<u8> {
    Seq::new(
        cur.pixels@.len(),
        |i: int|
            if i % 4 == 3 {
                cur.pixels@[i]
            } else {
                spec_blend(outgoing_byte(last, i), cur.pixels@[i] as int, alpha) as u8
            },
    )
}

/// What installing a new image does to a fade: the image shown so far
/// becomes the outgoing side of the dissolve (or black where there is
/// none, or where its dimensions differ) and the reveal restarts.
pub open spec fn fade_update_rel(o: Fade, f: Fade, frame: Frame) -> bool {
    &&& f.image == Some(frame)
    &&& f.last_image == (if o.image matches Some(prev) && prev.width == frame.width
        && prev.height == frame.height {
        o.image
    } else {
        None::<Frame>
    })
    &&& !f.ended
    &&& f.alpha == o.alpha
}

/// One dissolve step: a finished fade stays untouched; otherwise the
/// full frame blended at the current opacity is emitted (when there is
/// an image) and the opacity advances by `FADE_STEP`, completing and
/// resetting once it passes the top of the range.
pub open spec fn fade_draw_rel(
    o: Fade,
    f: Fade,
    ops0: Seq<DrawOp>,
    ops1: Seq<DrawOp>,
    running: bool,
) -> bool {
    &&& running == !f.ended
    &&& (o.ended ==> f == o && ops1 == ops0)
    &&& (!o.ended ==> f.image == o.image && f.last_image == o.last_image)
    &&& (!o.ended && o.image is None ==> ops1 == ops0)
    &&& (!o.ended && o.image is Some ==> ({
        let img = o.image->Some_0;
        &&& ops1.len() == ops0.len() + 1
        &&& ops1.take(ops0.len() as int) == ops0
        &&& ops1.last() matches DrawOp::Image { frame } && frame.wf() && frame.width == img.width
            && frame.height == img.height && frame.pixels@ == blended_pixels(
            o.last_image,
            img,
            o.alpha as int,
        )
    }))
    &&& (!o.ended ==> (if o.alpha + FADE_STEP > FADE_ALPHA_MAX {
        f.alpha == 0 && f.ended
    } else {
        f.alpha == o.alpha + FADE_STEP && !f.ended
    }))
}

/// A dissolve step never completes early and never runs long: while
/// the opacity has room it advances by exactly `FADE_STEP` and the
/// reveal runs on; the step taken at the top of the range is the one
/// that completes it.  From a fresh reveal at opacity zero, that makes
/// exactly `FADE_ALPHA_MAX / FADE_STEP + 1` steps.
pub proof fn lemma_fade_completes_after_full_opacity_range(
    o: Fade,
    f: Fade,
    ops0: Seq<DrawOp>,
    ops1: Seq<DrawOp>,
    running: bool,
)
    requires
        !o.ended,
        fade_draw_rel(o, f, ops0, ops1, running),
    ensures
        o.alpha + FADE_STEP <= FADE_ALPHA_MAX ==> running && f.alpha == o.alpha + FADE_STEP,
        o.alpha + FADE_STEP > FADE_ALPHA_MAX ==> !running && f.ended && f.alpha == 0,
{
}

/// The cross-dissolve reveal.
pub struct Fade {
    pub image: Option<Frame>,
    pub last_image: Option<Frame>,
    pub ended: bool,
    pub alpha: u32,
}

impl Fade {
    pub open spec fn wf(&self) -> bool {
        &&& self.alpha <= FADE_ALPHA_MAX
        &&& (self.image matches Some(f) ==> f.wf())
        &&& (self.last_image matches Some(f) ==> f.wf())
        &&& (self.last_image matches Some(l) ==> self.image matches Some(f) && l.width == f.width
            && l.height == f.height)
    }

    pub fn new() -> (r: Fade)
        ensures
            r.wf(),
            r.image is None,
            r.last_image is None,
            r.ended,
            r.alpha == 0,
    {
        Fade { image: None, last_image: None, ended: true, alpha: 0 }
    }

    /// Begin revealing `frame`.  The image shown so far becomes the
    /// outgoing side of the dissolve; where its dimensions do not match
    /// the new frame (or there is none) the dissolve starts from black.
    pub fn update_image(&mut self, frame: Frame)
        requires
            old(self).wf(),
            frame.wf(),
        ensures
            final(self).wf(),
            fade_update_rel(*old(self), *final(self), frame),
    {
        let matches_dims = match &self.image {
            Some(f) => f.width == frame.width && f.height == frame.height,
            None => false,
        };
        if matches_dims {
            self.last_image = self.image.take();
        } else {
            self.last_image = None;
        }
        self.image = Some(frame);
        self.ended = false;
    }

    /// One dissolve step: emit the full frame blended at the current
    /// opacity, then advance the opacity by `FADE_STEP`; past the top of
    /// the range the reveal is complete and the opacity resets for the
    /// next one.  Returns true while the reveal is still running.
    pub fn draw(&mut self, canvas: &mut Canvas) -> (running: bool)
        requires
            old(self).wf(),
        ensures
            final(self).wf(),
            fade_draw_rel(*old(self), *final(self), old(canvas).ops@, final(canvas).ops@, running),
    {
        if self.ended {
            return false;
        }
        match &self.image {
            Some(image) => {
                let n = image.pixels.len();
                let mut out: Vec<u8> = Vec::new();
                let mut i: usize = 0;
                while i < n
                    invariant
                        i <= n,
                        n == image.pixels@.len(),
                        self.wf(),
                        self.image matches Some(im) && im == image,
                        self.alpha <= FADE_ALPHA_MAX,
                        out@.len() == i,
                        forall|k: int|
                            0 <= k < i ==> out@[k] == blended_pixels(
                                self.last_image,
                                *image,
                                self.alpha as int,
                            )[k],
                    decreases n - i,
                {
                    let c = image.pixels[i];
                    let b: u8 = if i % 4 == 3 {
                        c
                    } else {
                        let p: u8 = match &self.last_image {
                            Some(l) => l.pixels[i],
                            None => 0,
                        };
                        blend(p, c, self.alpha)
                    };
                    out.push(b);
                    i = i + 1;
                }
                let frame = Frame { width: image.width, height: image.height, pixels: out };
                proof {
                    assert(frame.pixels@ =~= blended_pixels(
                        self.last_image,
                        *image,
                        self.alpha as int,
                    ));
                }
                let ghost ops0 = canvas.ops@;
                canvas.push(DrawOp::Image { frame });
                proof {
                    assert(canvas.ops@.take(ops0.len() as int) =~= ops0);
                }
            },
            None => {},
        }
        if self.alpha + FADE_STEP > FADE_ALPHA_MAX {
            self.alpha = 0;
            self.ended = true;
        } else {
            self.alpha = self.alpha + FADE_STEP;
        }
        !self.ended
    }
}

/// One exec channel blend, exactly the integer formula of `spec_blend`.
fn blend(from: u8, to: u8, alpha: u32) -> (r: u8)
    requires
        alpha <= 255,
    ensures
        r as int == spec_blend(from as int, to as int, alpha as int),
{
    proof {
        vstd::arithmetic::mul::lemma_mul_upper_bound(from as int, 255, 255 - alpha as int, 255);
        vstd::arithmetic::mul::lemma_mul_upper_bound(to as int, 255, alpha as int, 255);
    }
    let f = (from as u32) * (255 - alpha) / 255;
    let t = (to as u32) * alpha / 255;
    proof {
        lemma_blend_term_bound(from as int, 255 - alpha as int);
        lemma_blend_term_bound(to as int, alpha as int);
        assert(f + t <= 255);
    }
    (f + t) as u8
}

/// A channel value weighted by a fraction of 255 stays below that
/// fraction: `v * w / 255 <= w` whenever `v` is at most 255.
proof fn lemma_blend_term_bound(v: int, w: int)
    requires
        0 <= v <= 255,
        0 <= w <= 255,
    ensures
        0 <= v * w / 255 <= w,
{
    assert(0 <= v * w <= 255 * w) by (nonlinear_arith)
        requires
            0 <= v <= 255,
            0 <= w,
    ;
    vstd::arithmetic::div_mod::lemma_div_is_ordered(v * w, 255 * w, 255);
    vstd::arithmetic::div_mod::lemma_div_multiples_vanish(w, 255);
    vstd::arithmetic::div_mod::lemma_div_pos_is_pos(v * w, 255);
}

} // verus!
