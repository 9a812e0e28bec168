//! The plain swap transition, and the closed set of reveal effects the
//! playlist dispatches over, selected by name at configuration time.

use vstd::prelude::*;

use crate::canvas::Canvas;
use crate::canvas::DrawOp;
use crate::frame::Frame;
use crate::text::str_eq;
use crate::transitions::distortion::distortion_draw_rel;
use crate::transitions::distortion::Distortion;
use crate::transitions::distortion::RATE_SCALE;
use crate::transitions::fade::fade_draw_rel;
use crate::transitions::fade::fade_update_rel;
use crate::transitions::fade::Fade;
use crate::transitions::pixels::pixels_draw_rel;
use crate::transitions::pixels::pixels_update_rel;
use crate::transitions::pixels::Pixels;
use crate::transitions::quads::quads_draw_rel;
use crate::transitions::quads::quads_update_rel;
use crate::transitions::quads::Quads;
use crate::transitions::slides::slides_draw_rel;
use crate::transitions::slides::slides_update_rel;
use crate::transitions::slides::Slides;
use crate::transitions::sphere::sphere_draw_rel;
use crate::transitions::sphere::Sphere;

verus! {

/// The whole-image blit a simple swap emits.
pub open spec fn full_blit(f: Frame) -> DrawOp {
    DrawOp::Blit {
        src_x: 0,
        src_y: 0,
        width: f.width,
        height: f.height,
        dest_x: 0,
        dest_y: 0,
    }
}

/// One swap step: the first call after a new image blits it whole;
/// every call reports completion, and calls before any image or after
/// the swap draw nothing.
pub open spec fn simple_draw_rel(
    o: SimpleTransition,
    f: SimpleTransition,
    ops0: Seq<DrawOp>,
    ops1: Seq<DrawOp>,
    running: bool,
) -> bool {
    &&& !running
    &&& f.ended
    &&& f.image == o.image
    &&& ops1 == (if o.ended {
        ops0
    } else {
        match o.image {
            Some(fr) => ops0.push(full_blit(fr)),
            None => ops0,
        }
    })
}

/// The no-effect transition: one draw of the whole image.
pub struct SimpleTransition {
    pub image: Option<Frame>,
    pub ended: bool,
}

impl SimpleTransition {
    pub open spec fn wf(&self) -> bool {
        self.image matches Some(f) ==> f.wf()
    }

    pub fn new() -> (r: SimpleTransition)
        ensures
            r.wf(),
            r.image is None,
            r.ended,
    {
        SimpleTransition { image: None, ended: true }
    }

    /// Install the image to swap in on the next step.
    pub fn update_image(&mut self, frame: Frame)
        requires
            old(self).wf(),
            frame.wf(),
        ensures
            final(self).wf(),
            final(self).image == Some(frame),
            !final(self).ended,
    {
        self.image = Some(frame);
        self.ended = false;
    }

    /// One step: the first call after a new image blits it whole; every
    /// call reports completion, and calls before any image or after the
    /// swap draw nothing.
    pub fn draw(&mut self, canvas: &mut Canvas) -> (running: bool)
        requires
            old(self).wf(),
        ensures
            final(self).wf(),
            simple_draw_rel(
                *old(self),
                *final(self),
                old(canvas).ops@,
                final(canvas).ops@,
                running,
            ),
    {
        if !self.ended {
            self.ended = true;
            match &self.image {
                Some(i) => {
                    canvas.push(
                        DrawOp::Blit {
                            src_x: 0,
                            src_y: 0,
                            width: i.width,
                            height: i.height,
                            dest_x: 0,
                            dest_y: 0,
                        },
                    );
                },
                None => {},
            }
        }
        false
    }
}

/// The closed set of reveal effects.
pub enum Transition {
    Simple(SimpleTransition),
    Fade(Fade),
    Pixels(Pixels),
    Quads(Quads),
    Slides(Slides),
    Distortion(Distortion),
    Sphere(Sphere),
}

/// The names the playlist accepts for each effect.
pub open spec fn known_transition_name(n: Seq<char>) -> bool {
    ||| n == "simple"@
    ||| n == "pixels"@
    ||| n == "quads"@
    ||| n == "slide"@
    ||| n == "slides"@
    ||| n == "fade"@
    ||| n == "distortion"@
    ||| n == "sphere"@
}

/// The freshly constructed effect each name selects: idle, with no
/// image installed.
pub open spec fn transition_initial(t: Transition, n: Seq<char>) -> bool {
    match t {
        Transition::Simple(s) => n == "simple"@ && s.image is None && s.ended,
        Transition::Fade(f) => n == "fade"@ && f.image is None && f.last_image is None && f.ended
            && f.alpha == 0,
        Transition::Pixels(p) => n == "pixels"@ && p.image is None && p.pixels@
            == Seq::<crate::transitions::pixels::Pixel>::empty(),
        Transition::Quads(q) => n == "quads"@ && q.image is None && q.quads@
            == Seq::<crate::transitions::quads::Quad>::empty(),
        Transition::Slides(s) => ((n == "slide"@ && s.n_slides == 1) || (n == "slides"@
            && s.n_slides == 8)) && s.image is None && s.slides@
            == Seq::<crate::transitions::slides::Slide>::empty(),
        Transition::Distortion(d) => n == "distortion"@ && d.image is None && d.ended
            && d.dim.rate == RATE_SCALE,
        Transition::Sphere(s) => n == "sphere"@ && s.image is None && s.ended && s.dim.rate
            == RATE_SCALE,
    }
}

/// What installing a new image does, variant by variant.  The effect
/// kind never changes.
pub open spec fn transition_update_rel(o: Transition, f: Transition, frame: Frame) -> bool {
    match (o, f) {
        (Transition::Simple(a), Transition::Simple(b)) => b.image == Some(frame) && !b.ended,
        (Transition::Fade(a), Transition::Fade(b)) => fade_update_rel(a, b, frame),
        (Transition::Pixels(a), Transition::Pixels(b)) => pixels_update_rel(a, b, frame),
        (Transition::Quads(a), Transition::Quads(b)) => quads_update_rel(a, b, frame),
        (Transition::Slides(a), Transition::Slides(b)) => slides_update_rel(a, b, frame),
        (Transition::Distortion(a), Transition::Distortion(b)) => b.image == Some(frame)
            && !b.ended && b.dim.rate == RATE_SCALE,
        (Transition::Sphere(a), Transition::Sphere(b)) => b.image == Some(frame) && !b.ended
            && b.dim.rate == RATE_SCALE && b.dim.aspect_w == frame.width && b.dim.aspect_h
            == frame.height,
        _ => false,
    }
}

/// What one reveal step does, variant by variant: each effect advances
/// by exactly its own step relation, and `running` is false only once
/// the reveal has completed.  The effect kind never changes.
pub open spec fn transition_draw_rel(
    o: Transition,
    f: Transition,
    ops0: Seq<DrawOp>,
    ops1: Seq<DrawOp>,
    running: bool,
) -> bool {
    match (o, f) {
        (Transition::Simple(a), Transition::Simple(b)) => simple_draw_rel(
            a,
            b,
            ops0,
            ops1,
            running,
        ),
        (Transition::Fade(a), Transition::Fade(b)) => fade_draw_rel(a, b, ops0, ops1, running),
        (Transition::Pixels(a), Transition::Pixels(b)) => pixels_draw_rel(
            a,
            b,
            ops0,
            ops1,
            running,
        ),
        (Transition::Quads(a), Transition::Quads(b)) => quads_draw_rel(a, b, ops0, ops1, running),
        (Transition::Slides(a), Transition::Slides(b)) => slides_draw_rel(
            a,
            b,
            ops0,
            ops1,
            running,
        ),
        (Transition::Distortion(a), Transition::Distortion(b)) => distortion_draw_rel(
            a,
            b,
            ops0,
            ops1,
            running,
        ),
        (Transition::Sphere(a), Transition::Sphere(b)) => sphere_draw_rel(
            a,
            b,
            ops0,
            ops1,
            running,
        ),
        _ => false,
    }
}

impl Transition {
    pub open spec fn wf(&self) -> bool {
        match self {
            Transition::Simple(t) => t.wf(),
            Transition::Fade(t) => t.wf(),
            Transition::Pixels(t) => t.wf(),
            Transition::Quads(t) => t.wf(),
            Transition::Slides(t) => t.wf(),
            Transition::Distortion(t) => t.wf(),
            Transition::Sphere(t) => t.wf(),
        }
    }

    /// The effect a configuration name selects, freshly constructed;
    /// `None` for an unknown name.
    pub fn from_name(name: &str) -> (r: Option<Transition>)
        ensures
            r is Some <==> known_transition_name(name@),
            r matches Some(t) ==> t.wf() && transition_initial(t, name@),
    {
        if str_eq(name, "simple") {
            Some(Transition::Simple(SimpleTransition::new()))
        } else if str_eq(name, "pixels") {
            Some(Transition::Pixels(Pixels::new()))
        } else if str_eq(name, "quads") {
            Some(Transition::Quads(Quads::new()))
        } else if str_eq(name, "slide") {
            Some(Transition::Slides(Slides::new(1)))
        } else if str_eq(name, "slides") {
            Some(Transition::Slides(Slides::new(8)))
        } else if str_eq(name, "fade") {
            Some(Transition::Fade(Fade::new()))
        } else if str_eq(name, "distortion") {
            Some(Transition::Distortion(Distortion::new()))
        } else if str_eq(name, "sphere") {
            Some(Transition::Sphere(Sphere::new()))
        } else {
            None
        }
    }

    /// Begin revealing `frame` with the active effect.
    pub fn update_image(&mut self, frame: Frame)
        requires
            old(self).wf(),
            frame.wf(),
        ensures
            final(self).wf(),
            transition_update_rel(*old(self), *final(self), frame),
    {
        match self {
            Transition::Simple(t) => t.update_image(frame),
            Transition::Fade(t) => t.update_image(frame),
            Transition::Pixels(t) => t.update_image(frame),
            Transition::Quads(t) => t.update_image(frame),
            Transition::Slides(t) => t.update_image(frame),
            Transition::Distortion(t) => t.update_image(frame),
            Transition::Sphere(t) => t.update_image(frame),
        }
    }

    /// One reveal step of the active effect.
    pub fn draw(&mut self, canvas: &mut Canvas) -> (running: bool)
        requires
            old(self).wf(),
        ensures
            final(self).wf(),
            transition_draw_rel(
                *old(self),
                *final(self),
                old(canvas).ops@,
                final(canvas).ops@,
                running,
            ),
    {
        match self {
            Transition::Simple(t) => t.draw(canvas),
            Transition::Fade(t) => t.draw(canvas),
            Transition::Pixels(t) => t.draw(canvas),
            Transition::Quads(t) => t.draw(canvas),
            Transition::Slides(t) => t.draw(canvas),
            Transition::Distortion(t) => t.draw(canvas),
            Transition::Sphere(t) => t.draw(canvas),
        }
    }
}

} // verus!
