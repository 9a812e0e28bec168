//! The sliding-panel reveal: the canvas is cut into horizontal strips
//! that grow inward from alternating edges, paced by a non-linear
//! velocity curve so each strip eases in and out instead of moving at
//! constant speed.

use vstd::prelude::*;

use crate::canvas::Canvas;
use crate::canvas::DrawOp;
use crate::frame::Frame;
use crate::velocity::curve_value;
use crate::velocity::StepsVelocity;
use crate::velocity::VELOCITY_SCALE;

verus! {

/// Base strip speed in pixels per step; the curve scales it.
pub const SLIDE_VELOCITY: u32 = 15;

/// Which edge a strip grows from: `Left` strips start at the right edge
/// and grow leftward, `Right` strips start at the left edge.
#[derive(Clone, Copy, PartialEq, Eq, Structural, Debug)]
pub enum Direction {
    Right,
    Left,
}

/// The speed profile every strip uses: ease in, peak in the middle,
/// ease out, in `VELOCITY_SCALE` fixed-point units.
pub open spec fn default_curve_samples() -> Seq<int> {
    seq![1000int, 1500int, 2000int, 1500int, 1000int, 100int]
}

/// The strip speed for the coming step, from the fraction of the strip
/// already revealed: the curve value at that progress, scaled by the
/// base velocity.
pub open spec fn vx_after(samples: Seq<int>, width: int, i_width: int) -> int {
    curve_value(samples, width * (VELOCITY_SCALE as int) / i_width) * (SLIDE_VELOCITY as int) / (
    VELOCITY_SCALE as int)
}

/// One horizontal strip of the reveal.
pub struct Slide {
    pub i_width: u32,
    pub i_height: u32,
    pub x: u32,
    pub y: u32,
    pub width: u32,
    pub height: u32,
    pub vx: u32,
    pub direction: Direction,
    pub ended: bool,
    pub velocity: StepsVelocity,
}

/// One growth step of a strip: the width grows by the current speed and
/// is clamped exactly to the image width, with `x` snapped to zero, once
/// it reaches it; leftward strips retreat `x` in lockstep; the speed for
/// the next step is read from the curve at the new progress.
pub open spec fn step_slide(s: Slide) -> Slide {
    let w2 = s.width + s.vx;
    if w2 >= s.i_width {
        Slide {
            width: s.i_width,
            x: 0,
            ended: true,
            vx: vx_after(s.velocity.samples(), s.i_width as int, s.i_width as int) as u32,
            ..s
        }
    } else {
        Slide {
            width: w2 as u32,
            x: if s.direction is Left {
                (s.i_width - w2) as u32
            } else {
                s.x
            },
            ended: false,
            vx: vx_after(s.velocity.samples(), w2 as int, s.i_width as int) as u32,
            ..s
        }
    }
}

/// The blit a still-active strip draws after one step: its own source
/// region, placed at the canvas edge it grows from.
pub open spec fn slide_blit(s: Slide) -> DrawOp {
    DrawOp::Blit {
        src_x: s.x,
        src_y: s.y,
        width: s.width,
        height: s.height,
        dest_x: if s.direction is Left {
            0
        } else {
            (s.i_width - s.width) as u32
        },
        dest_y: s.y,
    }
}

/// The operations one pass over `slides` emits: one blit per strip that
/// was still active when the pass began, each after its step, in strip
/// order.
pub open spec fn active_blits(slides: Seq<Slide>) -> Seq<DrawOp> {
    slides.filter(|s: Slide| !s.ended).map_values(|s: Slide| slide_blit(step_slide(s)))
}

impl Slide {
    pub open spec fn wf(&self) -> bool {
        &&& self.i_width >= 1
        &&& self.velocity.wf()
        &&& (if self.ended {
            self.width == self.i_width && self.x == 0
        } else {
            self.width < self.i_width && (self.direction is Left ==> self.x + self.width
                == self.i_width) && (self.direction is Right ==> self.x == 0)
        })
    }

    /// A strip that grows from the right edge leftward.
    pub fn left(n_slides: u32, i_width: u32, i_height: u32, y: u32) -> (r: Slide)
        requires
            n_slides >= 1,
            i_width >= 1,
        ensures
            r.wf(),
            r == (Slide {
                i_width,
                i_height,
                x: i_width,
                y,
                width: 0,
                height: i_height / n_slides,
                vx: SLIDE_VELOCITY,
                direction: Direction::Left,
                ended: false,
                velocity: r.velocity,
            }),
            r.velocity.samples() == default_curve_samples(),
    {
        Slide {
            i_width,
            i_height,
            x: i_width,
            y,
            width: 0,
            height: i_height / n_slides,
            vx: SLIDE_VELOCITY,
            direction: Direction::Left,
            ended: false,
            velocity: Slide::velocity(),
        }
    }

    /// A strip that grows from the left edge rightward.
    pub fn right(n_slides: u32, i_width: u32, i_height: u32, y: u32) -> (r: Slide)
        requires
            n_slides >= 1,
            i_width >= 1,
        ensures
            r.wf(),
            r == (Slide {
                i_width,
                i_height,
                x: 0,
                y,
                width: 0,
                height: i_height / n_slides,
                vx: SLIDE_VELOCITY,
                direction: Direction::Right,
                ended: false,
                velocity: r.velocity,
            }),
            r.velocity.samples() == default_curve_samples(),
    {
        Slide {
            i_width,
            i_height,
            x: 0,
            y,
            width: 0,
            height: i_height / n_slides,
            vx: SLIDE_VELOCITY,
            direction: Direction::Right,
            ended: false,
            velocity: Slide::velocity(),
        }
    }

    /// The shared speed profile.
    fn velocity() -> (r: StepsVelocity)
        ensures
            r.wf(),
            r.samples() == default_curve_samples(),
    {
        let mut steps: Vec<u32> = Vec::new();
        steps.push(1000);
        steps.push(1500);
        steps.push(2000);
        steps.push(1500);
        steps.push(1000);
        steps.push(100);
        proof {
            assert(steps@.map_values(|s: u32| s as int) =~= default_curve_samples());
        }
        StepsVelocity::new(steps)
    }

    /// One growth step, exactly `step_slide`.
    pub fn update(&mut self)
        requires
            old(self).wf(),
            !old(self).ended,
        ensures
            final(self).wf(),
            *final(self) == step_slide(*old(self)),
    {
        let w2_64: u64 = self.width as u64 + self.vx as u64;
        if w2_64 >= self.i_width as u64 {
            self.width = self.i_width;
            self.x = 0;
            self.ended = true;
        } else {
            self.width = w2_64 as u32;
            match self.direction {
                Direction::Left => {
                    self.x = self.i_width - self.width;
                },
                Direction::Right => {},
            }
        }
        let iw = self.i_width as u64;
        proof {
            vstd::arithmetic::mul::lemma_mul_inequality(
                self.width as int,
                self.i_width as int,
                1000,
            );
            vstd::arithmetic::mul::lemma_mul_is_commutative(self.i_width as int, 1000);
            vstd::arithmetic::div_mod::lemma_div_is_ordered(
                self.width as int * 1000,
                self.i_width as int * 1000,
                self.i_width as int,
            );
            vstd::arithmetic::div_mod::lemma_div_multiples_vanish(1000, self.i_width as int);
            vstd::arithmetic::div_mod::lemma_div_pos_is_pos(
                self.width as int * 1000,
                self.i_width as int,
            );
            vstd::arithmetic::mul::lemma_mul_upper_bound(
                self.width as int,
                u32::MAX as int,
                1000,
                1000,
            );
        }
        let progress_64: u64 = (self.width as u64) * 1000 / iw;
        let progress = progress_64 as u32;
        let v = self.velocity.get_velocity(progress);
        proof {
            vstd::arithmetic::mul::lemma_mul_upper_bound(v as int, u32::MAX as int, 15, 15);
            vstd::arithmetic::mul::lemma_mul_inequality(v as int, u32::MAX as int, 15);
            vstd::arithmetic::div_mod::lemma_div_is_ordered(
                v as int * 15,
                u32::MAX as int * 15,
                1000,
            );
            vstd::arithmetic::div_mod::lemma_div_pos_is_pos(v as int * 15, 1000);
            assert(u32::MAX as int * 15 / 1000 <= u32::MAX);
        }
        let vx64 = (v as u64) * 15 / 1000;
        self.vx = vx64 as u32;
    }
}

/// Consecutive strips never overlap: strip `i` occupies rows from
/// `i * h / n` for `h / n` rows, and strip `i + 1` starts at or below
/// the first row past it, so the strips' regions are pairwise disjoint.
pub proof fn lemma_strips_disjoint(n: int, h: int, i: int)
    requires
        1 <= n,
        0 <= h,
        0 <= i,
    ensures
        i * h / n + h / n <= (i + 1) * h / n,
{
    let a = i * h;
    vstd::arithmetic::mul::lemma_mul_nonnegative(i, h);
    vstd::arithmetic::div_mod::lemma_fundamental_div_mod(a, n);
    vstd::arithmetic::div_mod::lemma_fundamental_div_mod(h, n);
    vstd::arithmetic::div_mod::lemma_mod_division_less_than_divisor(a, n);
    vstd::arithmetic::div_mod::lemma_mod_division_less_than_divisor(h, n);
    let q = a / n + h / n;
    assert(a + h >= n * q) by {
        vstd::arithmetic::mul::lemma_mul_is_distributive_add(n, a / n, h / n);
    }
    vstd::arithmetic::mul::lemma_mul_is_commutative(n, q);
    vstd::arithmetic::div_mod::lemma_div_is_ordered(n * q, a + h, n);
    vstd::arithmetic::div_mod::lemma_div_multiples_vanish(q, n);
    assert(q <= (a + h) / n);
    vstd::arithmetic::mul::lemma_mul_is_distributive_add_other_way(h, i, 1);
    assert(a + h == (i + 1) * h);
}

/// A strip ends exactly when its grown width reaches the image width,
/// and the step that ends it clamps the width to exactly the image
/// width and snaps `x` to the boundary.
pub proof fn lemma_slide_ends_exactly_at_full_width(s: Slide)
    requires
        s.wf(),
        !s.ended,
    ensures
        step_slide(s).ended <==> s.width + s.vx >= s.i_width,
        step_slide(s).ended ==> step_slide(s).width == s.i_width && step_slide(s).x == 0,
        !step_slide(s).ended ==> step_slide(s).width == s.width + s.vx,
{
}

/// The sliding-panel reveal: a configurable number of strips with
/// alternating growth direction.
pub struct Slides {
    pub n_slides: u32,
    pub slides: Vec<Slide>,
    pub image: Option<Frame>,
}

/// What one strip of a fresh reveal looks like: strip `i` of `n` over a
/// `w` by `h` image, growing leftward when `i` is even and rightward
/// when it is odd.
pub open spec fn strip_at(n: int, w: int, h: int, i: int, s: Slide) -> bool {
    &&& s.i_width == w
    &&& s.i_height == h
    &&& s.y == i * h / n
    &&& s.height == h / n
    &&& s.width == 0
    &&& s.vx == SLIDE_VELOCITY
    &&& !s.ended
    &&& s.velocity.wf()
    &&& s.velocity.samples() == default_curve_samples()
    &&& (if i % 2 == 0 {
        s.direction is Left && s.x == w
    } else {
        s.direction is Right && s.x == 0
    })
}

/// What installing a new image does to the strips: one fresh strip per
/// configured count, evenly spaced and alternating in direction, or
/// none when the image has no width.
pub open spec fn slides_update_rel(o: Slides, f: Slides, frame: Frame) -> bool {
    &&& f.n_slides == o.n_slides
    &&& f.image == Some(frame)
    &&& (frame.width == 0 ==> f.slides@ == Seq::<Slide>::empty())
    &&& (frame.width >= 1 ==> ({
        &&& f.slides@.len() == o.n_slides
        &&& (forall|i: int|
            0 <= i < f.slides@.len() ==> strip_at(
                o.n_slides as int,
                frame.width as int,
                frame.height as int,
                i,
                #[trigger] f.slides@[i],
            ))
    }))
}

/// One pass over the strips: every strip still active at the start of
/// the pass takes one growth step and draws itself, in order, and the
/// pass reports running while it found any active strip.
pub open spec fn slides_draw_rel(
    o: Slides,
    f: Slides,
    ops0: Seq<DrawOp>,
    ops1: Seq<DrawOp>,
    running: bool,
) -> bool {
    &&& f.n_slides == o.n_slides
    &&& f.image == o.image
    &&& f.slides@.len() == o.slides@.len()
    &&& (forall|i: int|
        0 <= i < o.slides@.len() ==> f.slides@[i] == (if o.slides@[i].ended {
            o.slides@[i]
        } else {
            step_slide(#[trigger] o.slides@[i])
        }))
    &&& ops1 == ops0 + active_blits(o.slides@)
    &&& running == exists|i: int| 0 <= i < o.slides@.len() && !(#[trigger] o.slides@[i]).ended
}

impl Slides {
    pub open spec fn wf(&self) -> bool {
        &&& self.n_slides >= 1
        &&& (self.image matches Some(f) ==> f.wf())
        &&& (forall|i: int| 0 <= i < self.slides@.len() ==> (#[trigger] self.slides@[i]).wf())
    }

    /// A sliding-panel reveal with the given strip count.
    pub fn new(slides: u32) -> (r: Slides)
        requires
            slides >= 1,
        ensures
            r.wf(),
            r.n_slides == slides,
            r.slides@ == Seq::<Slide>::empty(),
            r.image is None,
    {
        Slides { n_slides: slides, slides: Vec::new(), image: None }
    }

    /// Install a new image and rebuild the strips, evenly spaced and
    /// alternating in direction.  An image with no width yields no
    /// strips and the reveal completes at once.
    pub fn update_image(&mut self, frame: Frame)
        requires
            old(self).wf(),
            frame.wf(),
        ensures
            final(self).wf(),
            slides_update_rel(*old(self), *final(self), frame),
    {
        self.slides = Vec::new();
        if frame.width >= 1 {
            let n = self.n_slides;
            let mut i: u32 = 0;
            while i < n
                invariant
                    i <= n,
                    n >= 1,
                    n == self.n_slides,
                    frame.width >= 1,
                    self.slides@.len() == i as int,
                    forall|j: int|
                        0 <= j < i as int ==> strip_at(
                            n as int,
                            frame.width as int,
                            frame.height as int,
                            j,
                            #[trigger] self.slides@[j],
                        ),
                decreases n - i,
            {
                proof {
                    vstd::arithmetic::mul::lemma_mul_upper_bound(
                        i as int,
                        u32::MAX as int,
                        frame.height as int,
                        u32::MAX as int,
                    );
                    vstd::arithmetic::mul::lemma_mul_inequality(
                        i as int,
                        n as int,
                        frame.height as int,
                    );
                    vstd::arithmetic::mul::lemma_mul_is_commutative(n as int, frame.height as int);
                    vstd::arithmetic::div_mod::lemma_div_is_ordered(
                        i as int * frame.height as int,
                        n as int * frame.height as int,
                        n as int,
                    );
                    vstd::arithmetic::div_mod::lemma_div_multiples_vanish(
                        frame.height as int,
                        n as int,
                    );
                    vstd::arithmetic::div_mod::lemma_div_pos_is_pos(
                        i as int * frame.height as int,
                        n as int,
                    );
                }
                let y64: u64 = (i as u64) * (frame.height as u64) / (n as u64);
                let y = y64 as u32;
                let slide = if i % 2 == 0 {
                    Slide::left(n, frame.width, frame.height, y)
                } else {
                    Slide::right(n, frame.width, frame.height, y)
                };
                self.slides.push(slide);
                i = i + 1;
            }
        }
        self.image = Some(frame);
    }

    /// One pass over the strips: every strip still active at the start
    /// of the pass takes one growth step and draws itself, in order.
    /// Returns true while the pass found any active strip; the whole
    /// reveal completes only when every strip has ended.
    pub fn draw(&mut self, canvas: &mut Canvas) -> (running: bool)
        requires
            old(self).wf(),
        ensures
            final(self).wf(),
            slides_draw_rel(
                *old(self),
                *final(self),
                old(canvas).ops@,
                final(canvas).ops@,
                running,
            ),
    {
        let ghost slides0 = self.slides@;
        let ghost ops0 = canvas.ops@;
        let mut ended = true;
        let n = self.slides.len();
        let mut i: usize = 0;
        while i < n
            invariant
                i <= n,
                n == slides0.len(),
                self.n_slides == old(self).n_slides,
                self.image == old(self).image,
                slides0 == old(self).slides@,
                self.slides@.len() == slides0.len(),
                old(self).wf(),
                forall|j: int|
                    i as int <= j < slides0.len() ==> #[trigger] self.slides@[j] == slides0[j],
                forall|j: int|
                    0 <= j < i as int ==> self.slides@[j] == (if slides0[j].ended {
                        slides0[j]
                    } else {
                        step_slide(#[trigger] slides0[j])
                    }),
                forall|j: int| 0 <= j < self.slides@.len() ==> (#[trigger] self.slides@[j]).wf(),
                canvas.ops@ == ops0 + active_blits(slides0.take(i as int)),
                ended == !(exists|j: int|
                    0 <= j < i as int && !(#[trigger] slides0[j]).ended),
            decreases n - i,
        {
            proof {
                let s = slides0.take(i as int);
                let s2 = slides0.take(i as int + 1);
                assert(s2.drop_last() =~= s);
                assert(s2.last() == slides0[i as int]);
                reveal(Seq::filter);
                assert(s2.filter(|s: Slide| !s.ended) == if !slides0[i as int].ended {
                    s.filter(|s: Slide| !s.ended).push(slides0[i as int])
                } else {
                    s.filter(|s: Slide| !s.ended)
                });
                assert(active_blits(s2) =~= if !slides0[i as int].ended {
                    active_blits(s).push(slide_blit(step_slide(slides0[i as int])))
                } else {
                    active_blits(s)
                });
            }
            let was_ended = self.slides[i].ended;
            if !was_ended {
                self.slides[i].update();
                let sx = self.slides[i].x;
                let sy = self.slides[i].y;
                let sw = self.slides[i].width;
                let sh = self.slides[i].height;
                let siw = self.slides[i].i_width;
                let dest_x = match self.slides[i].direction {
                    Direction::Left => 0,
                    Direction::Right => siw - sw,
                };
                canvas.push(
                    DrawOp::Blit {
                        src_x: sx,
                        src_y: sy,
                        width: sw,
                        height: sh,
                        dest_x,
                        dest_y: sy,
                    },
                );
                ended = false;
            }
            i = i + 1;
        }
        proof {
            assert(slides0.take(slides0.len() as int) =~= slides0);
        }
        !ended
    }
}

} // verus!
