//! The quad reveal: the cell grid, random removal, and completion.

use std::collections::HashSet;

use slideshow::{Canvas, DrawOp, Frame, Quads, Rgba};

#[test]
fn reveal_blits_every_cell_exactly_once() {
    // 40 by 40 image: cells of side 40 / 10 = 4, a 10 by 10 grid.
    let mut quads = Quads::new();
    let frame = Frame::filled(40, 40, Rgba { r: 5, g: 6, b: 7, a: 255 }).unwrap();
    quads.update_image(frame);
    assert_eq!(100, quads.quads.len());

    let mut canvas = Canvas::new();
    let mut steps = 0;
    loop {
        let running = quads.draw(&mut canvas);
        steps += 1;
        if !running {
            break;
        }
        assert!(steps <= 100, "reveal ran past the cell count");
    }
    assert_eq!(100, steps);

    let mut seen = HashSet::new();
    for op in &canvas.ops {
        match op {
            DrawOp::Blit { src_x, src_y, width, height, dest_x, dest_y } => {
                assert_eq!((4, 4), (*width, *height));
                assert_eq!((src_x, src_y), (dest_x, dest_y));
                assert_eq!(0, src_x % 4);
                assert_eq!(0, src_y % 4);
                assert!(*src_x < 40 && *src_y < 40);
                assert!(seen.insert((*src_x, *src_y)), "cell blitted twice");
            }
            other => panic!("unexpected operation {:?}", other),
        }
    }
    assert_eq!(100, seen.len());
}

#[test]
fn image_too_small_for_a_cell_completes_at_once() {
    let mut quads = Quads::new();
    let frame = Frame::filled(8, 8, Rgba { r: 0, g: 0, b: 0, a: 255 }).unwrap();
    quads.update_image(frame);
    assert_eq!(0, quads.quads.len());
    let mut canvas = Canvas::new();
    assert!(!quads.draw(&mut canvas));
    assert!(canvas.ops.is_empty());
}

#[test]
fn wide_image_gets_more_columns() {
    // 100 by 40: cells of side 4, 25 columns by 10 rows.
    let mut quads = Quads::new();
    let frame = Frame::filled(100, 40, Rgba { r: 0, g: 0, b: 0, a: 255 }).unwrap();
    quads.update_image(frame);
    assert_eq!(250, quads.quads.len());
}
