//! The sphere-warp transition: like the distortion, the warp itself is
//! the host shader's work; the library owns the parameter lifecycle — a
//! decaying rate from which the refractive index and lens radius are
//! recomputed each step — and emits one shader draw per step.

use vstd::prelude::*;

use crate::canvas::Canvas;
use crate::canvas::DrawOp;
use crate::frame::Frame;
use crate::transitions::distortion::RATE_SCALE;

verus! {

/// The sphere shader's input block, in `RATE_SCALE` fixed-point units;
/// the aspect ratio is carried exactly as the image's width and height.
#[derive(Clone, Copy, PartialEq, Eq, Structural, Debug)]
pub struct SphereDim {
    pub rate: u32,
    pub center_x: u32,
    pub center_y: u32,
    pub radius: u32,
    pub aspect_w: u32,
    pub aspect_h: u32,
    pub refractive_index: u32,
}

/// The refractive index at a given rate: it grows from 1.0 toward 2.0
/// as the rate decays.
pub open spec fn sphere_refraction(rate: int) -> int {
    2 * RATE_SCALE - rate
}

/// The lens radius at a given rate: half the refractive index.
pub open spec fn sphere_radius(rate: int) -> int {
    sphere_refraction(rate) / 2
}

/// One draw step of the sphere warp: a finished effect stays untouched;
/// a zero rate completes the effect; otherwise the refraction and radius
/// are recomputed from the current rate, one shader draw of the image is
/// emitted with them, and the rate decays by one unit.
pub open spec fn sphere_draw_rel(
    o: Sphere,
    f: Sphere,
    ops0: Seq<DrawOp>,
    ops1: Seq<DrawOp>,
    running: bool,
) -> bool {
    &&& f.image == o.image
    &&& running == !f.ended
    &&& (if o.ended {
        f == o && ops1 == ops0
    } else if o.dim.rate == 0 {
        f.ended && f.dim == o.dim && ops1 == ops0
    } else {
        &&& !f.ended
        &&& f.dim == (SphereDim {
            rate: (o.dim.rate - 1) as u32,
            radius: sphere_radius(o.dim.rate as int) as u32,
            refractive_index: sphere_refraction(o.dim.rate as int) as u32,
            ..o.dim
        })
        &&& ops1 == (match o.image {
            Some(_) => ops0.push(
                DrawOp::SphereWarp {
                    rate: o.dim.rate,
                    center_x: o.dim.center_x,
                    center_y: o.dim.center_y,
                    radius: sphere_radius(o.dim.rate as int) as u32,
                    aspect_w: o.dim.aspect_w,
                    aspect_h: o.dim.aspect_h,
                    refractive_index: sphere_refraction(o.dim.rate as int) as u32,
                },
            ),
            None => ops0,
        })
    })
}

/// The shader-driven sphere warp.
pub struct Sphere {
    pub image: Option<Frame>,
    pub ended: bool,
    pub dim: SphereDim,
}

impl Sphere {
    pub open spec fn wf(&self) -> bool {
        &&& (self.image matches Some(f) ==> f.wf())
        &&& self.dim.rate <= RATE_SCALE
    }

    pub fn new() -> (r: Sphere)
        ensures
            r.wf(),
            r.image is None,
            r.ended,
            r.dim == (SphereDim {
                rate: RATE_SCALE,
                center_x: RATE_SCALE / 2,
                center_y: RATE_SCALE / 2,
                radius: RATE_SCALE / 2,
                aspect_w: 1,
                aspect_h: 1,
                refractive_index: RATE_SCALE,
            }),
    {
        Sphere {
            image: None,
            ended: true,
            dim: SphereDim {
                rate: RATE_SCALE,
                center_x: RATE_SCALE / 2,
                center_y: RATE_SCALE / 2,
                radius: RATE_SCALE / 2,
                aspect_w: 1,
                aspect_h: 1,
                refractive_index: RATE_SCALE,
            },
        }
    }

    /// Install a new image: its dimensions become the aspect ratio and
    /// the decay restarts from the full rate.
    pub fn update_image(&mut self, frame: Frame)
        requires
            old(self).wf(),
            frame.wf(),
        ensures
            final(self).wf(),
            final(self).image == Some(frame),
            !final(self).ended,
            final(self).dim == (SphereDim {
                rate: RATE_SCALE,
                aspect_w: frame.width,
                aspect_h: frame.height,
                ..old(self).dim
            }),
    {
        self.dim.aspect_w = frame.width;
        self.dim.aspect_h = frame.height;
        self.image = Some(frame);
        self.ended = false;
        self.dim.rate = RATE_SCALE;
    }

    /// One decay step, exactly `sphere_draw_rel`.
    pub fn draw(&mut self, canvas: &mut Canvas) -> (running: bool)
        requires
            old(self).wf(),
        ensures
            final(self).wf(),
            sphere_draw_rel(*old(self), *final(self), old(canvas).ops@, final(canvas).ops@, running),
    {
        if !self.ended {
            if self.dim.rate == 0 {
                self.ended = true;
            } else {
                self.dim.refractive_index = 2 * RATE_SCALE - self.dim.rate;
                self.dim.radius = self.dim.refractive_index / 2;
                match &self.image {
                    Some(_) => {
                        canvas.push(
                            DrawOp::SphereWarp {
                                rate: self.dim.rate,
                                center_x: self.dim.center_x,
                                center_y: self.dim.center_y,
                                radius: self.dim.radius,
                                aspect_w: self.dim.aspect_w,
                                aspect_h: self.dim.aspect_h,
                                refractive_index: self.dim.refractive_index,
                            },
                        );
                    },
                    None => {},
                }
                self.dim.rate = self.dim.rate - 1;
            }
        }
        !self.ended
    }
}

} // verus!
