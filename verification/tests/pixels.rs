//! The pixel-shuffle reveal: exact step count and exact coverage.

use std::collections::HashSet;

use slideshow::{Canvas, DrawOp, Frame, Pixels, Rgba};

fn gradient_frame(w: u32, h: u32) -> Frame {
    let mut bytes = Vec::new();
    for y in 0..h {
        for x in 0..w {
            bytes.push(x as u8);
            bytes.push(y as u8);
            bytes.push(7);
            bytes.push(255);
        }
    }
    Frame::new(w, h, bytes).unwrap()
}

#[test]
fn reveal_draws_every_pixel_exactly_once_in_exact_steps() {
    // 30 by 20: 600 units, a batch of 600 / 300 = 2 per step, so the
    // reveal completes in exactly ceil(600 / 2) = 300 steps.
    let (w, h) = (30u32, 20u32);
    let n = (w * h) as usize;
    let batch = std::cmp::max(1, n / 300);
    let expected_steps = n.div_ceil(batch);

    let mut pixels = Pixels::new();
    pixels.update_image(gradient_frame(w, h));

    let mut canvas = Canvas::new();
    let mut steps = 0usize;
    loop {
        let running = pixels.draw(&mut canvas);
        steps += 1;
        if !running {
            break;
        }
        assert!(steps <= expected_steps, "reveal ran past the exact step count");
    }
    assert_eq!(expected_steps, steps);

    // The rectangles drawn across all steps cover every source
    // coordinate exactly once, each with the source's own colour.
    let mut seen = HashSet::new();
    for op in &canvas.ops {
        match op {
            DrawOp::FillRect { x, y, width, height, color } => {
                assert_eq!((1, 1), (*width, *height));
                assert!(*x < w && *y < h);
                assert_eq!(
                    Rgba { r: *x as u8, g: *y as u8, b: 7, a: 255 },
                    *color,
                    "pixel drawn with a colour not its own"
                );
                assert!(seen.insert((*x, *y)), "pixel drawn twice");
            }
            other => panic!("unexpected operation {:?}", other),
        }
    }
    assert_eq!(n, seen.len());

    // A completed reveal draws nothing more.
    let before = canvas.ops.len();
    assert!(!pixels.draw(&mut canvas));
    assert_eq!(before, canvas.ops.len());
}

#[test]
fn tiny_image_pops_one_unit_per_step() {
    // 2 by 2: fewer than 300 units, so the batch clamps to one and the
    // reveal takes exactly four steps.
    let mut pixels = Pixels::new();
    pixels.update_image(gradient_frame(2, 2));
    let mut canvas = Canvas::new();
    let mut steps = 0;
    loop {
        let running = pixels.draw(&mut canvas);
        steps += 1;
        if !running {
            break;
        }
    }
    assert_eq!(4, steps);
    assert_eq!(4, canvas.ops.len());
}
