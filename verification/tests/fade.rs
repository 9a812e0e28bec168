//! The fade: exact per-channel integer blending, step count, and the
//! handover from the previous image.

use slideshow::{Canvas, DrawOp, Fade, Frame};

fn one_pixel(r: u8, g: u8, b: u8) -> Frame {
    Frame::new(1, 1, vec![r, g, b, 255]).unwrap()
}

fn frame_of(op: &DrawOp) -> &Frame {
    match op {
        DrawOp::Image { frame } => frame,
        other => panic!("unexpected operation {:?}", other),
    }
}

#[test]
fn first_reveal_dissolves_from_black() {
    let mut fade = Fade::new();
    fade.update_image(one_pixel(200, 100, 50));
    let mut canvas = Canvas::new();

    let mut steps = 0;
    loop {
        let running = fade.draw(&mut canvas);
        steps += 1;
        if !running {
            break;
        }
        assert!(steps <= 256, "fade ran past its step count");
    }
    // Opacity runs 0..=255, one step each, completing on the 256th.
    assert_eq!(256, steps);
    assert_eq!(256, canvas.ops.len());

    // The per-channel formula, exactly: to * alpha / 255 from black.
    let first = frame_of(&canvas.ops[0]);
    assert_eq!(vec![0, 0, 0, 255], first.pixels);
    let mid = frame_of(&canvas.ops[128]);
    assert_eq!(
        vec![(200u32 * 128 / 255) as u8, (100u32 * 128 / 255) as u8, (50u32 * 128 / 255) as u8, 255],
        mid.pixels
    );
    let last = frame_of(&canvas.ops[255]);
    assert_eq!(vec![200, 100, 50, 255], last.pixels);
}

#[test]
fn second_reveal_dissolves_from_previous_image() {
    let mut fade = Fade::new();
    fade.update_image(one_pixel(200, 100, 50));
    let mut canvas = Canvas::new();
    while fade.draw(&mut canvas) {}

    // The next image dissolves from the one just shown: channel values
    // are from * (255 - alpha) / 255 + to * alpha / 255.
    fade.update_image(one_pixel(0, 0, 0));
    canvas = Canvas::new();
    let mut steps = 0;
    loop {
        let running = fade.draw(&mut canvas);
        steps += 1;
        if !running {
            break;
        }
    }
    assert_eq!(256, steps);
    let mid = frame_of(&canvas.ops[128]);
    assert_eq!(
        vec![(200u32 * 127 / 255) as u8, (100u32 * 127 / 255) as u8, (50u32 * 127 / 255) as u8, 255],
        mid.pixels
    );
    let last = frame_of(&canvas.ops[255]);
    assert_eq!(vec![0, 0, 0, 255], last.pixels);
}

#[test]
fn finished_fade_draws_nothing() {
    let mut fade = Fade::new();
    let mut canvas = Canvas::new();
    assert!(!fade.draw(&mut canvas));
    assert!(canvas.ops.is_empty());
}
