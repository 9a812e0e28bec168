//! What the transitions hand the renderer: a recorded list of plain draw
//! operations.  The host executes them with whatever drawing capability
//! it has; the library only decides what to draw.

use vstd::prelude::*;

use crate::frame::Frame;
use crate::frame::Rgba;

verus! {

/// One drawing instruction.  `Blit` coordinates are in pixels of the
/// source image most recently handed to the active transition, which is
/// also the image the shader operations draw.
#[derive(Clone, Debug, PartialEq, Eq)]
pub enum DrawOp {
    /// Fill an axis-aligned rectangle with one colour.
    FillRect { x: u32, y: u32, width: u32, height: u32, color: Rgba },
    /// Copy a sub-rectangle of the source image to a destination point.
    Blit { src_x: u32, src_y: u32, width: u32, height: u32, dest_x: u32, dest_y: u32 },
    /// Replace the whole canvas with a computed frame.
    Image { frame: Frame },
    /// Draw the source image through the distortion shader at the given
    /// rate, in `RATE_SCALE` fixed-point units.
    Distort { rate: u32 },
    /// Draw the source image through the sphere-warp shader.  All scalar
    /// parameters are in `RATE_SCALE` fixed-point units; the aspect ratio
    /// is the exact quotient `aspect_w / aspect_h`.
    SphereWarp {
        rate: u32,
        center_x: u32,
        center_y: u32,
        radius: u32,
        aspect_w: u32,
        aspect_h: u32,
        refractive_index: u32,
    },
}

/// The recorder the transitions draw into: operations accumulate in
/// order and the host drains them after each step.
pub struct Canvas {
    pub ops: Vec<DrawOp>,
}

impl Canvas {
    pub fn new() -> (r: Canvas)
        ensures
            r.ops@ == Seq::<DrawOp>::empty(),
    {
        Canvas { ops: Vec::new() }
    }

    pub fn push(&mut self, op: DrawOp)
        ensures
            final(self).ops@ == old(self).ops@.push(op),
    {
        self.ops.push(op);
    }
}

} // verus!
