//! The distortion transition: the per-pixel warp itself runs in the
//! host's shader stage; the library owns only the effect parameter — a
//! rate that decays by a fixed step per draw until it reaches zero — and
//! emits one shader draw per step.

use vstd::prelude::*;

use crate::canvas::Canvas;
use crate::canvas::DrawOp;
use crate::frame::Frame;

verus! {

/// The fixed-point unit of the shader parameters: a rate of
/// `RATE_SCALE` stands for 1.0 and decays by one unit per step.
pub const RATE_SCALE: u32 = 100;

/// The distortion shader's input block.
#[derive(Clone, Copy, PartialEq, Eq, Structural, Debug)]
pub struct Dim {
    pub rate: u32,
}

/// The shader-driven warp with a decaying rate.
pub struct Distortion {
    pub image: Option<Frame>,
    pub ended: bool,
    pub dim: Dim,
}

/// One draw step of the distortion: a finished effect stays untouched; a
/// zero rate completes the effect; otherwise one shader draw of the
/// image at the current rate is emitted and the rate decays by one unit.
pub open spec fn distortion_draw_rel(
    o: Distortion,
    f: Distortion,
    ops0: Seq<DrawOp>,
    ops1: Seq<DrawOp>,
    running: bool,
) -> bool {
    &&& f.image == o.image
    &&& running == !f.ended
    &&& (if o.ended {
        f == o && ops1 == ops0
    } else if o.dim.rate == 0 {
        f.ended && f.dim == o.dim && ops1 == ops0
    } else {
        &&& !f.ended
        &&& f.dim.rate == o.dim.rate - 1
        &&& ops1 == (match o.image {
            Some(_) => ops0.push(DrawOp::Distort { rate: o.dim.rate }),
            None => ops0,
        })
    })
}

impl Distortion {
    pub open spec fn wf(&self) -> bool {
        &&& (self.image matches Some(f) ==> f.wf())
        &&& self.dim.rate <= RATE_SCALE
    }

    pub fn new() -> (r: Distortion)
        ensures
            r.wf(),
            r.image is None,
            r.ended,
            r.dim.rate == RATE_SCALE,
    {
        Distortion { image: None, ended: true, dim: Dim { rate: RATE_SCALE } }
    }

    /// Install a new image and restart the decay from the full rate.
    pub fn update_image(&mut self, frame: Frame)
        requires
            old(self).wf(),
            frame.wf(),
        ensures
            final(self).wf(),
            final(self).image == Some(frame),
            !final(self).ended,
            final(self).dim.rate == RATE_SCALE,
    {
        self.image = Some(frame);
        self.ended = false;
        self.dim = Dim { rate: RATE_SCALE };
    }

    /// One decay step, exactly `distortion_draw_rel`.
    pub fn draw(&mut self, canvas: &mut Canvas) -> (running: bool)
        requires
            old(self).wf(),
        ensures
            final(self).wf(),
            distortion_draw_rel(
                *old(self),
                *final(self),
                old(canvas).ops@,
                final(canvas).ops@,
                running,
            ),
    {
        if !self.ended {
            if self.dim.rate == 0 {
                self.ended = true;
            } else {
                match &self.image {
                    Some(_) => {
                        canvas.push(DrawOp::Distort { rate: self.dim.rate });
                    },
                    None => {},
                }
                self.dim.rate = self.dim.rate - 1;
            }
        }
        !self.ended
    }
}

} // verus!
