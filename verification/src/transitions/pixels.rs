//! The pixel-shuffle reveal: one unit per source pixel, shuffled once
//! into a random order when the image arrives; each step pops a bounded
//! batch of units and draws each popped pixel as a single filled
//! rectangle sampled at its own coordinate.

use vstd::prelude::*;

use crate::canvas::Canvas;
use crate::canvas::DrawOp;
use crate::frame::Frame;
use crate::random::shuffle;

verus! {

/// One reveal unit: a pixel coordinate of the source image.
#[derive(Clone, Copy, PartialEq, Eq, Structural, Debug)]
pub struct Pixel {
    pub x: u32,
    pub y: u32,
}

impl Pixel {
    pub fn new(x: u32, y: u32) -> (r: Pixel)
        ensures
            r == (Pixel { x, y }),
    {
        Pixel { x, y }
    }
}

/// Every pixel coordinate of a `w` by `h` image, column by column: the
/// unit at position `i` is (`i / h`, `i % h`).
pub open spec fn all_pixels(w: int, h: int) -> Seq<Pixel> {
    Seq::new((w * h) as nat, |i: int| Pixel { x: (i / h) as u32, y: (i % h) as u32 })
}

/// How many units one step pops for a `w` by `h` image: a fixed fraction
/// of the total, at least one, so larger images reveal over more steps
/// rather than more time.
pub open spec fn reveal_batch(w: int, h: int) -> int {
    let b = w * h / 300;
    if b == 0 {
        1
    } else {
        b
    }
}

/// The draw operation for one revealed unit: a single filled rectangle
/// of the source's own colour at that coordinate.
pub open spec fn pixel_fill_op(img: Frame, p: Pixel) -> DrawOp {
    DrawOp::FillRect {
        x: p.x,
        y: p.y,
        width: 1,
        height: 1,
        color: img.pixel_at(p.x as int, p.y as int),
    }
}

/// What installing a new image does to the unit queue: however the
/// shuffle ordered it, it holds every coordinate of the image exactly as
/// often as the full grid does.
pub open spec fn pixels_update_rel(o: Pixels, f: Pixels, frame: Frame) -> bool {
    &&& f.image == Some(frame)
    &&& f.pixels@.len() == frame.width * frame.height
    &&& f.pixels@.to_multiset() == all_pixels(frame.width as int, frame.height as int).to_multiset()
}

/// One reveal step: an empty queue draws nothing and reports
/// completion; otherwise up to one batch of units is popped and drawn,
/// in pop order, and the reveal runs on while units remain.
pub open spec fn pixels_draw_rel(
    o: Pixels,
    f: Pixels,
    ops0: Seq<DrawOp>,
    ops1: Seq<DrawOp>,
    running: bool,
) -> bool {
    &&& f.image == o.image
    &&& (o.pixels@.len() == 0 ==> f == o && ops1 == ops0 && !running)
    &&& (o.pixels@.len() > 0 ==> ({
        let img = o.image->Some_0;
        let n = o.pixels@.len() as int;
        let b = reveal_batch(img.width as int, img.height as int);
        let m = if b <= n {
            b
        } else {
            n
        };
        &&& f.pixels@ == o.pixels@.take(n - m)
        &&& ops1.len() == ops0.len() + m
        &&& ops1.take(ops0.len() as int) == ops0
        &&& (forall|j: int|
            0 <= j < m ==> #[trigger] ops1[ops0.len() + j] == pixel_fill_op(
                img,
                o.pixels@[n - 1 - j],
            ))
        &&& running == (n - m > 0)
    }))
}

/// The pixel-shuffle reveal.
pub struct Pixels {
    pub pixels: Vec<Pixel>,
    pub image: Option<Frame>,
}

impl Pixels {
    pub open spec fn wf(&self) -> bool {
        &&& (self.image matches Some(f) ==> f.wf())
        &&& self.pixels@.len() > 0 ==> self.image is Some
        &&& (self.image matches Some(f) ==> forall|i: int|
            0 <= i < self.pixels@.len() ==> (#[trigger] self.pixels@[i]).x < f.width
                && self.pixels@[i].y < f.height)
    }

    pub fn new() -> (r: Pixels)
        ensures
            r.wf(),
            r.pixels@ == Seq::<Pixel>::empty(),
            r.image is None,
    {
        Pixels { pixels: Vec::new(), image: None }
    }

    /// Install a new image: build one unit per source pixel and shuffle
    /// them once, fixing the reveal order.  Whatever order the shuffle
    /// chose, the unit queue holds every coordinate of the image exactly
    /// as often as the full grid does.
    pub fn update_image(&mut self, frame: Frame)
        requires
            old(self).wf(),
            frame.wf(),
        ensures
            final(self).wf(),
            pixels_update_rel(*old(self), *final(self), frame),
    {
        let ghost w = frame.width as int;
        let ghost h = frame.height as int;
        let npix = frame.pixels.len();
        proof {
            vstd::arithmetic::mul::lemma_mul_is_associative(4, w, h);
            assert(4 * (w * h) == npix);
        }
        self.pixels = Vec::new();
        let mut x: u32 = 0;
        while x < frame.width
            invariant
                x <= frame.width,
                w == frame.width as int,
                h == frame.height as int,
                4 * (w * h) <= usize::MAX,
                self.pixels@.len() == x as int * h,
                forall|i: int|
                    0 <= i < self.pixels@.len() ==> self.pixels@[i] == all_pixels(w, h)[i],
            decreases frame.width - x,
        {
            proof {
                vstd::arithmetic::mul::lemma_mul_inequality(x as int + 1, w, h);
                vstd::arithmetic::mul::lemma_mul_is_distributive_add_other_way(h, x as int, 1);
                vstd::arithmetic::mul::lemma_mul_nonnegative(w, h);
            }
            let mut y: u32 = 0;
            while y < frame.height
                invariant
                    y <= frame.height,
                    x < frame.width,
                    w == frame.width as int,
                    h == frame.height as int,
                    4 * (w * h) <= usize::MAX,
                    (x as int + 1) * h <= w * h,
                    self.pixels@.len() == x as int * h + y as int,
                    forall|i: int|
                        0 <= i < self.pixels@.len() ==> self.pixels@[i] == all_pixels(w, h)[i],
                decreases frame.height - y,
            {
                proof {
                    vstd::arithmetic::mul::lemma_mul_is_distributive_add_other_way(h, x as int, 1);
                    vstd::arithmetic::div_mod::lemma_fundamental_div_mod_converse(
                        x as int * h + y as int,
                        h,
                        x as int,
                        y as int,
                    );
                }
                self.pixels.push(Pixel { x, y });
                y = y + 1;
            }
            x = x + 1;
        }
        proof {
            vstd::arithmetic::mul::lemma_mul_is_commutative(w, h);
            assert(self.pixels@ =~= all_pixels(w, h));
        }
        shuffle(&mut self.pixels);
        proof {
            lemma_all_pixels_in_range(w, h);
            assert forall|i: int| 0 <= i < self.pixels@.len() implies (#[trigger] self.pixels@[i]).x
                < frame.width && self.pixels@[i].y < frame.height by {
                broadcast use vstd::seq_lib::group_to_multiset_ensures;

                assert(self.pixels@.contains(self.pixels@[i]));
                assert(self.pixels@.to_multiset().count(self.pixels@[i]) > 0);
                assert(all_pixels(w, h).to_multiset().count(self.pixels@[i]) > 0);
                assert(all_pixels(w, h).contains(self.pixels@[i]));
            }
        }
        self.image = Some(frame);
    }

    /// One reveal step: pop up to one batch of units and emit a filled
    /// rectangle for each, in pop order.  Returns true while units
    /// remain afterwards; the step that pops the last unit reports
    /// completion.
    pub fn draw(&mut self, canvas: &mut Canvas) -> (running: bool)
        requires
            old(self).wf(),
        ensures
            final(self).wf(),
            pixels_draw_rel(
                *old(self),
                *final(self),
                old(canvas).ops@,
                final(canvas).ops@,
                running,
            ),
    {
        if self.pixels.is_empty() {
            return false;
        }
        let mut running = false;
        match &self.image {
            Some(image) => {
                let ghost img = *image;
                let ghost n = self.pixels@.len() as int;
                let ghost ops0 = canvas.ops@;
                proof {
                    vstd::arithmetic::mul::lemma_mul_upper_bound(
                        img.width as int,
                        u32::MAX as int,
                        img.height as int,
                        u32::MAX as int,
                    );
                }
                let wh = (image.width as u64) * (image.height as u64);
                let mut count: u64 = wh / 300;
                if count == 0 {
                    count = 1;
                }
                proof {
                    assert(count as int == reveal_batch(img.width as int, img.height as int));
                }
                let ghost b = count as int;
                let mut j: u64 = 0;
                while j < count && !self.pixels.is_empty()
                    invariant
                        self.image matches Some(im) && im == img,
                        *image == img,
                        img.wf(),
                        j <= b,
                        b == count as int,
                        n == old(self).pixels@.len() as int,
                        j as int <= n,
                        self.pixels@ == old(self).pixels@.take(n - j as int),
                        forall|i: int|
                            0 <= i < self.pixels@.len() ==> (#[trigger] self.pixels@[i]).x
                                < img.width && self.pixels@[i].y < img.height,
                        canvas.ops@.len() == ops0.len() + j as int,
                        canvas.ops@.take(ops0.len() as int) == ops0,
                        forall|t: int|
                            0 <= t < j as int ==> #[trigger] canvas.ops@[ops0.len() + t]
                                == pixel_fill_op(img, old(self).pixels@[n - 1 - t]),
                    decreases count - j,
                {
                    let popped = self.pixels.pop();
                    match popped {
                        Some(p) => {
                            let color = image.pixel(p.x, p.y);
                            canvas.push(
                                DrawOp::FillRect { x: p.x, y: p.y, width: 1, height: 1, color },
                            );
                            proof {
                                assert(old(self).pixels@.take(n - j as int).drop_last()
                                    =~= old(self).pixels@.take(n - j as int - 1));
                                assert(canvas.ops@.take(ops0.len() as int) =~= ops0);
                            }
                        },
                        None => {
                            proof {
                                assert(false);
                            }
                        },
                    }
                    j = j + 1;
                }
                running = !self.pixels.is_empty();
            },
            None => {
                proof {
                    assert(false);
                }
            },
        }
        running
    }
}

/// The number of reveal steps that empties a queue of `n` units when
/// each step pops a batch of `b`: `n / b` rounded up.
pub open spec fn steps_to_complete(n: int, b: int) -> int {
    (n + b - 1) / b
}

/// Each step pops `min(b, n)` units, and that takes the remaining step
/// count down by exactly one, so a reveal of `n` units at batch size `b`
/// reports completion after exactly `ceil(n / b)` steps.
pub proof fn lemma_reveal_step_count(n: int, b: int)
    requires
        1 <= b,
        0 <= n,
    ensures
        n == 0 ==> steps_to_complete(n, b) == 0,
        n > 0 ==> steps_to_complete(n, b) >= 1,
        n > 0 ==> steps_to_complete(
            n - (if b <= n {
                b
            } else {
                n
            }),
            b,
        ) == steps_to_complete(n, b) - 1,
{
    if n > 0 {
        vstd::arithmetic::div_mod::lemma_hoist_over_denominator(n - 1, 1, b as nat);
        assert(steps_to_complete(n, b) == (n - 1) / b + 1);
        vstd::arithmetic::div_mod::lemma_div_pos_is_pos(n - 1, b);
        if b <= n {
            assert(steps_to_complete(n - b, b) == (n - 1) / b);
        } else {
            vstd::arithmetic::div_mod::lemma_basic_div(n - 1, b);
            vstd::arithmetic::div_mod::lemma_basic_div(b - 1, b);
            assert(steps_to_complete(0, b) == 0);
        }
    } else {
        vstd::arithmetic::div_mod::lemma_basic_div(b - 1, b);
    }
}

/// The units still queued after `k` reveal steps that began with `n`
/// units and pop `b` per step.
pub open spec fn remaining_units(n: int, b: int, k: int) -> int {
    if n - k * b >= 0 {
        n - k * b
    } else {
        0
    }
}

/// The reveal reaches completion in exactly `ceil(n / b)` steps: each
/// step takes the queue from `remaining_units(n, b, k)` to
/// `remaining_units(n, b, k + 1)` — popping `min(b, remaining)` units,
/// as `draw` promises — and the queue is empty exactly from step
/// `steps_to_complete(n, b)` on, never before.
pub proof fn lemma_reveal_completion_exact(n: int, b: int, k: int)
    requires
        1 <= b,
        0 <= n,
        0 <= k,
    ensures
        remaining_units(n, b, k + 1) == ({
            let r = remaining_units(n, b, k);
            r - (if b <= r {
                b
            } else {
                r
            })
        }),
        remaining_units(n, b, k) == 0 <==> k >= steps_to_complete(n, b),
{
    vstd::arithmetic::mul::lemma_mul_is_distributive_add_other_way(b, k, 1);
    if n <= k * b {
        vstd::arithmetic::div_mod::lemma_hoist_over_denominator(n - 1, 1, b as nat);
        vstd::arithmetic::div_mod::lemma_div_is_ordered(n - 1, k * b - 1, b);
        vstd::arithmetic::div_mod::lemma_hoist_over_denominator(-1, k, b as nat);
        vstd::arithmetic::div_mod::lemma_div_of0(b);
        assert((-1) / b == -1) by {
            vstd::arithmetic::div_mod::lemma_fundamental_div_mod_converse(-1, b, -1, b - 1);
        }
        assert((k * b - 1) / b == k - 1);
        assert(steps_to_complete(n, b) <= k);
    }
    if k >= steps_to_complete(n, b) {
        vstd::arithmetic::div_mod::lemma_hoist_over_denominator(n - 1, 1, b as nat);
        let q = (n - 1) / b;
        vstd::arithmetic::div_mod::lemma_fundamental_div_mod(n - 1, b);
        vstd::arithmetic::div_mod::lemma_mod_division_less_than_divisor(n - 1, b);
        if n >= 1 {
            assert(q * b >= n - 1 - (b - 1)) by {
                vstd::arithmetic::mul::lemma_mul_is_commutative(b, q);
            }
            assert(k >= q + 1);
            vstd::arithmetic::mul::lemma_mul_inequality(q + 1, k, b);
            vstd::arithmetic::mul::lemma_mul_is_distributive_add_other_way(b, q, 1);
            assert(k * b >= q * b + b >= n);
        }
        assert(remaining_units(n, b, k) == 0);
    }
}

/// Every unit of the full grid lies inside the image.
pub proof fn lemma_all_pixels_in_range(w: int, h: int)
    requires
        0 <= w <= u32::MAX,
        0 <= h <= u32::MAX,
    ensures
        forall|i: int|
            0 <= i < w * h ==> (#[trigger] all_pixels(w, h)[i]).x < w && all_pixels(w, h)[i].y < h,
{
    assert forall|i: int| 0 <= i < w * h implies (#[trigger] all_pixels(w, h)[i]).x < w
        && all_pixels(w, h)[i].y < h by {
        assert(h > 0) by (nonlinear_arith)
            requires
                0 <= i < w * h,
                0 <= h,
        ;
        vstd::arithmetic::div_mod::lemma_mod_division_less_than_divisor(i, h);
        vstd::arithmetic::mul::lemma_mul_is_commutative(w, h);
        vstd::arithmetic::div_mod::lemma_multiply_divide_lt(i, h, w);
        assert(0 <= i / h < w);
        assert(0 <= i % h < h);
    }
}

/// The unit grid has no duplicates and misses no coordinate: position
/// `i` determines the pair (`i / h`, `i % h`) and every in-range pair
/// stands at its own position.
pub proof fn lemma_all_pixels_exact(w: int, h: int)
    requires
        0 <= w <= u32::MAX,
        0 <= h <= u32::MAX,
    ensures
        all_pixels(w, h).no_duplicates(),
        forall|x: int, y: int|
            0 <= x < w && 0 <= y < h ==> #[trigger] all_pixels(w, h).contains(
                Pixel { x: x as u32, y: y as u32 },
            ),
{
    let s = all_pixels(w, h);
    assert forall|i: int, j: int| 0 <= i < s.len() && 0 <= j < s.len() && i != j implies s[i]
        != s[j] by {
        assert(h > 0) by (nonlinear_arith)
            requires
                0 <= i < w * h,
                0 <= h,
        ;
        vstd::arithmetic::mul::lemma_mul_is_commutative(w, h);
        vstd::arithmetic::div_mod::lemma_mod_division_less_than_divisor(i, h);
        vstd::arithmetic::div_mod::lemma_mod_division_less_than_divisor(j, h);
        vstd::arithmetic::div_mod::lemma_multiply_divide_lt(i, h, w);
        vstd::arithmetic::div_mod::lemma_multiply_divide_lt(j, h, w);
        vstd::arithmetic::div_mod::lemma_div_pos_is_pos(i, h);
        vstd::arithmetic::div_mod::lemma_div_pos_is_pos(j, h);
        vstd::arithmetic::div_mod::lemma_fundamental_div_mod(i, h);
        vstd::arithmetic::div_mod::lemma_fundamental_div_mod(j, h);
        assert(i == h * (i / h) + i % h);
        assert(j == h * (j / h) + j % h);
        if s[i] == s[j] {
            assert(0 <= i / h < w && 0 <= j / h < w);
            assert(0 <= i % h < h && 0 <= j % h < h);
            assert((i / h) as u32 == (j / h) as u32 && (i % h) as u32 == (j % h) as u32);
            assert(i / h == j / h && i % h == j % h);
            assert(i == j);
        }
    }
    assert forall|x: int, y: int| 0 <= x < w && 0 <= y < h implies #[trigger] s.contains(
        Pixel { x: x as u32, y: y as u32 },
    ) by {
        let i = x * h + y;
        assert(0 <= x * h + y) by (nonlinear_arith)
            requires
                0 <= x,
                0 <= y,
                0 <= h,
        ;
        assert(x * h + y < w * h) by (nonlinear_arith)
            requires
                x < w,
                0 <= y < h,
                0 <= x,
        ;
        vstd::arithmetic::div_mod::lemma_fundamental_div_mod_converse(i, h, x, y);
        assert(s[i] == Pixel { x: x as u32, y: y as u32 });
    }
}

} // verus!
