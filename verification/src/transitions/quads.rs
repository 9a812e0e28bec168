//! The quad reveal: the canvas is cut into square cells sized from a
//! fixed count of vertical bands; each step removes one cell at random
//! and blits that source region to its own position.

use vstd::prelude::*;

use crate::canvas::Canvas;
use crate::canvas::DrawOp;
use crate::frame::Frame;
use crate::random::random_index;

verus! {

/// The fixed number of vertical bands the canvas is cut into; the cell
/// side is the image height divided by this count.
pub const V_QUADS: u32 = 10;

/// One reveal unit: a cell index pair.
#[derive(Clone, Copy, PartialEq, Eq, Structural, Debug)]
pub struct Quad {
    pub x: u32,
    pub y: u32,
}

impl Quad {
    pub fn new(x: u32, y: u32) -> (r: Quad)
        ensures
            r == (Quad { x, y }),
    {
        Quad { x, y }
    }
}

/// Every cell of a grid with `cw` columns and `ch` rows, column by
/// column: the cell at position `i` is (`i / ch`, `i % ch`).
pub open spec fn all_cells(cw: int, ch: int) -> Seq<Quad> {
    Seq::new((cw * ch) as nat, |i: int| Quad { x: (i / ch) as u32, y: (i % ch) as u32 })
}

/// The blit that reveals one cell of `img`: the square source region at
/// the cell's own position, copied to the same position.
pub open spec fn cell_blit(img: Frame, q: Quad) -> DrawOp {
    let qs = img.height as int / V_QUADS as int;
    DrawOp::Blit {
        src_x: (q.x * qs) as u32,
        src_y: (q.y * qs) as u32,
        width: qs as u32,
        height: qs as u32,
        dest_x: (q.x * qs) as u32,
        dest_y: (q.y * qs) as u32,
    }
}

/// What installing a new image does to the cell queue: the exact full
/// grid, or no cells when the image is too small to hold one.
pub open spec fn quads_update_rel(o: Quads, f: Quads, frame: Frame) -> bool {
    &&& f.image == Some(frame)
    &&& f.quads@ == (if frame.height / V_QUADS >= 1 {
        all_cells(
            frame.width as int / (frame.height as int / V_QUADS as int),
            frame.height as int / (frame.height as int / V_QUADS as int),
        )
    } else {
        Seq::<Quad>::empty()
    })
}

/// One reveal step: an empty queue draws nothing and reports
/// completion; otherwise exactly one cell — whichever one the random
/// draw picked — leaves the queue and its blit is the one operation
/// emitted, and the reveal runs on while cells remain.
pub open spec fn quads_draw_rel(
    o: Quads,
    f: Quads,
    ops0: Seq<DrawOp>,
    ops1: Seq<DrawOp>,
    running: bool,
) -> bool {
    &&& f.image == o.image
    &&& (o.quads@.len() == 0 ==> f == o && ops1 == ops0 && !running)
    &&& (o.quads@.len() > 0 ==> ({
        let img = o.image->Some_0;
        &&& exists|i: int|
            #![auto]
            0 <= i < o.quads@.len() && f.quads@ == o.quads@.remove(i) && ops1 == ops0.push(
                cell_blit(img, o.quads@[i]),
            )
        &&& running == (o.quads@.len() > 1)
    }))
}

/// The quad reveal.
pub struct Quads {
    pub quads: Vec<Quad>,
    pub image: Option<Frame>,
}

impl Quads {
    pub open spec fn wf(&self) -> bool {
        &&& (self.image matches Some(f) ==> f.wf())
        &&& self.quads@.len() > 0 ==> self.image is Some
        &&& (self.image matches Some(f) ==> ({
            let qs = f.height as int / V_QUADS as int;
            &&& (self.quads@.len() > 0 ==> qs >= 1)
            &&& (forall|i: int|
                0 <= i < self.quads@.len() ==> (#[trigger] self.quads@[i]).x < f.width as int / qs
                    && self.quads@[i].y < f.height as int / qs)
        }))
    }

    pub fn new() -> (r: Quads)
        ensures
            r.wf(),
            r.quads@ == Seq::<Quad>::empty(),
            r.image is None,
    {
        Quads { quads: Vec::new(), image: None }
    }

    /// Install a new image and rebuild the full cell grid.  An image too
    /// small to hold one cell yields no cells and the reveal completes
    /// at once.
    pub fn update_image(&mut self, frame: Frame)
        requires
            old(self).wf(),
            frame.wf(),
        ensures
            final(self).wf(),
            quads_update_rel(*old(self), *final(self), frame),
    {
        self.quads = Vec::new();
        let quad_size = frame.height / V_QUADS;
        if quad_size >= 1 {
            let h_quads = frame.width / quad_size;
            let v_quads = frame.height / quad_size;
            let ghost cw = h_quads as int;
            let ghost ch = v_quads as int;
            proof {
                vstd::arithmetic::mul::lemma_mul_upper_bound(
                    cw,
                    u32::MAX as int,
                    ch,
                    u32::MAX as int,
                );
            }
            let mut x: u32 = 0;
            while x < h_quads
                invariant
                    x <= h_quads,
                    cw == h_quads as int,
                    ch == v_quads as int,
                    cw * ch <= u32::MAX * u32::MAX,
                    self.quads@.len() == x as int * ch,
                    forall|i: int|
                        0 <= i < self.quads@.len() ==> self.quads@[i] == all_cells(cw, ch)[i],
                decreases h_quads - x,
            {
                proof {
                    vstd::arithmetic::mul::lemma_mul_inequality(x as int + 1, cw, ch);
                    vstd::arithmetic::mul::lemma_mul_is_distributive_add_other_way(ch, x as int, 1);
                    vstd::arithmetic::mul::lemma_mul_nonnegative(cw, ch);
                }
                let mut y: u32 = 0;
                while y < v_quads
                    invariant
                        y <= v_quads,
                        x < h_quads,
                        cw == h_quads as int,
                        ch == v_quads as int,
                        cw * ch <= u32::MAX * u32::MAX,
                        (x as int + 1) * ch <= cw * ch,
                        self.quads@.len() == x as int * ch + y as int,
                        forall|i: int|
                            0 <= i < self.quads@.len() ==> self.quads@[i] == all_cells(cw, ch)[i],
                    decreases v_quads - y,
                {
                    proof {
                        vstd::arithmetic::mul::lemma_mul_is_distributive_add_other_way(
                            ch,
                            x as int,
                            1,
                        );
                        vstd::arithmetic::div_mod::lemma_fundamental_div_mod_converse(
                            x as int * ch + y as int,
                            ch,
                            x as int,
                            y as int,
                        );
                    }
                    self.quads.push(Quad { x, y });
                    y = y + 1;
                }
                x = x + 1;
            }
            proof {
                vstd::arithmetic::mul::lemma_mul_is_commutative(cw, ch);
                assert(self.quads@ =~= all_cells(cw, ch));
                lemma_all_cells_in_range(cw, ch);
            }
        }
        self.image = Some(frame);
    }

    /// One reveal step: remove one cell, chosen at random, and blit its
    /// source region to its own position.  Whichever cell the draw
    /// picked, exactly one cell of the queue is gone and its blit is the
    /// one operation emitted.  Returns true while cells remain
    /// afterwards.
    pub fn draw(&mut self, canvas: &mut Canvas) -> (running: bool)
        requires
            old(self).wf(),
        ensures
            final(self).wf(),
            quads_draw_rel(*old(self), *final(self), old(canvas).ops@, final(canvas).ops@, running),
    {
        if self.quads.is_empty() {
            return false;
        }
        let mut running = false;
        match &self.image {
            Some(image) => {
                let ghost img = *image;
                let ghost quads0 = self.quads@;
                let idx = random_index(self.quads.len());
                let removed = self.quads.remove(idx);
                let quad_size = image.height / V_QUADS;
                proof {
                    lemma_cell_rect_in_image(
                        removed.x as int,
                        quad_size as int,
                        img.width as int,
                    );
                    lemma_cell_rect_in_image(
                        removed.y as int,
                        quad_size as int,
                        img.height as int,
                    );
                }
                let qx = removed.x * quad_size;
                let qy = removed.y * quad_size;
                canvas.push(
                    DrawOp::Blit {
                        src_x: qx,
                        src_y: qy,
                        width: quad_size,
                        height: quad_size,
                        dest_x: qx,
                        dest_y: qy,
                    },
                );
                proof {
                    assert(final(self).quads@ == quads0.remove(idx as int));
                    assert(final(canvas).ops@ == old(canvas).ops@.push(
                        cell_blit(img, quads0[idx as int]),
                    ));
                }
                running = !self.quads.is_empty();
            },
            None => {
                proof {
                    assert(false);
                }
            },
        }
        running
    }
}

/// Every cell of the full grid lies inside the grid bounds.
pub proof fn lemma_all_cells_in_range(cw: int, ch: int)
    requires
        0 <= cw <= u32::MAX,
        0 <= ch <= u32::MAX,
    ensures
        forall|i: int|
            0 <= i < cw * ch ==> (#[trigger] all_cells(cw, ch)[i]).x < cw && all_cells(cw, ch)[i].y
                < ch,
{
    assert forall|i: int| 0 <= i < cw * ch implies (#[trigger] all_cells(cw, ch)[i]).x < cw
        && all_cells(cw, ch)[i].y < ch by {
        assert(ch > 0) by (nonlinear_arith)
            requires
                0 <= i < cw * ch,
                0 <= ch,
        ;
        vstd::arithmetic::div_mod::lemma_mod_division_less_than_divisor(i, ch);
        vstd::arithmetic::mul::lemma_mul_is_commutative(cw, ch);
        vstd::arithmetic::div_mod::lemma_multiply_divide_lt(i, ch, cw);
        vstd::arithmetic::div_mod::lemma_div_pos_is_pos(i, ch);
    }
}

/// The cell grid has no duplicates and misses no cell: position `i`
/// determines the pair (`i / ch`, `i % ch`) and every in-range pair
/// stands at its own position, so the cells' square regions are
/// pairwise disjoint and together tile the gridded part of the canvas.
pub proof fn lemma_all_cells_exact(cw: int, ch: int)
    requires
        0 <= cw <= u32::MAX,
        0 <= ch <= u32::MAX,
    ensures
        all_cells(cw, ch).no_duplicates(),
        forall|x: int, y: int|
            0 <= x < cw && 0 <= y < ch ==> #[trigger] all_cells(cw, ch).contains(
                Quad { x: x as u32, y: y as u32 },
            ),
{
    let s = all_cells(cw, ch);
    assert forall|i: int, j: int| 0 <= i < s.len() && 0 <= j < s.len() && i != j implies s[i]
        != s[j] by {
        assert(ch > 0) by (nonlinear_arith)
            requires
                0 <= i < cw * ch,
                0 <= ch,
        ;
        vstd::arithmetic::mul::lemma_mul_is_commutative(cw, ch);
        vstd::arithmetic::div_mod::lemma_mod_division_less_than_divisor(i, ch);
        vstd::arithmetic::div_mod::lemma_mod_division_less_than_divisor(j, ch);
        vstd::arithmetic::div_mod::lemma_multiply_divide_lt(i, ch, cw);
        vstd::arithmetic::div_mod::lemma_multiply_divide_lt(j, ch, cw);
        vstd::arithmetic::div_mod::lemma_div_pos_is_pos(i, ch);
        vstd::arithmetic::div_mod::lemma_div_pos_is_pos(j, ch);
        vstd::arithmetic::div_mod::lemma_fundamental_div_mod(i, ch);
        vstd::arithmetic::div_mod::lemma_fundamental_div_mod(j, ch);
        if s[i] == s[j] {
            assert(0 <= i / ch < cw && 0 <= j / ch < cw);
            assert(0 <= i % ch < ch && 0 <= j % ch < ch);
            assert((i / ch) as u32 == (j / ch) as u32 && (i % ch) as u32 == (j % ch) as u32);
            assert(i / ch == j / ch && i % ch == j % ch);
            assert(i == j);
        }
    }
    assert forall|x: int, y: int| 0 <= x < cw && 0 <= y < ch implies #[trigger] s.contains(
        Quad { x: x as u32, y: y as u32 },
    ) by {
        let i = x * ch + y;
        assert(0 <= x * ch + y) by (nonlinear_arith)
            requires
                0 <= x,
                0 <= y,
                0 <= ch,
        ;
        assert(x * ch + y < cw * ch) by (nonlinear_arith)
            requires
                x < cw,
                0 <= y < ch,
                0 <= x,
        ;
        vstd::arithmetic::div_mod::lemma_fundamental_div_mod_converse(i, ch, x, y);
        assert(s[i] == Quad { x: x as u32, y: y as u32 });
    }
}

/// A cell that lies inside the grid maps to a square wholly inside the
/// image: `coord * size + size <= total` whenever `coord < total / size`.
proof fn lemma_cell_rect_in_image(coord: int, size: int, total: int)
    requires
        size >= 1,
        0 <= coord < total / size,
        0 <= total,
    ensures
        0 <= coord * size,
        coord * size + size <= total,
{
    vstd::arithmetic::mul::lemma_mul_nonnegative(coord, size);
    vstd::arithmetic::mul::lemma_mul_inequality(coord + 1, total / size, size);
    vstd::arithmetic::mul::lemma_mul_is_distributive_add_other_way(size, coord, 1);
    vstd::arithmetic::div_mod::lemma_fundamental_div_mod(total, size);
    vstd::arithmetic::div_mod::lemma_mod_division_less_than_divisor(total, size);
    vstd::arithmetic::mul::lemma_mul_is_commutative(total / size, size);
    assert((coord + 1) * size <= (total / size) * size);
    assert(coord * size + size <= total);
}

} // verus!
