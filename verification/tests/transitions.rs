//! The remaining effects and selection by name.

use slideshow::{
    Canvas, Dim, Distortion, DrawOp, Frame, Rgba, SimpleTransition, Sphere, Transition,
    RATE_SCALE,
};

fn small_frame() -> Frame {
    Frame::filled(4, 4, Rgba { r: 1, g: 2, b: 3, a: 255 }).unwrap()
}

#[test]
fn simple_swap_draws_once_and_completes() {
    let mut t = SimpleTransition::new();
    let mut canvas = Canvas::new();
    // Before any image: no draw, already complete.
    assert!(!t.draw(&mut canvas));
    assert!(canvas.ops.is_empty());

    t.update_image(small_frame());
    assert!(!t.draw(&mut canvas));
    assert_eq!(
        vec![DrawOp::Blit { src_x: 0, src_y: 0, width: 4, height: 4, dest_x: 0, dest_y: 0 }],
        canvas.ops
    );

    // After the swap: nothing more.
    assert!(!t.draw(&mut canvas));
    assert_eq!(1, canvas.ops.len());
}

#[test]
fn distortion_rate_decays_one_unit_per_step() {
    let mut t = Distortion::new();
    assert_eq!(Dim { rate: RATE_SCALE }, t.dim);
    t.update_image(small_frame());
    let mut canvas = Canvas::new();
    let mut steps = 0;
    loop {
        let running = t.draw(&mut canvas);
        steps += 1;
        if !running {
            break;
        }
    }
    // One shader draw per rate unit, then one completing step.
    assert_eq!(RATE_SCALE as usize + 1, steps);
    assert_eq!(RATE_SCALE as usize, canvas.ops.len());
    for (i, op) in canvas.ops.iter().enumerate() {
        assert_eq!(DrawOp::Distort { rate: RATE_SCALE - i as u32 }, *op);
    }
}

#[test]
fn sphere_recomputes_lens_from_rate() {
    let mut t = Sphere::new();
    t.update_image(Frame::filled(8, 4, Rgba { r: 0, g: 0, b: 0, a: 255 }).unwrap());
    let mut canvas = Canvas::new();
    assert!(t.draw(&mut canvas));
    match &canvas.ops[0] {
        DrawOp::SphereWarp {
            rate,
            center_x,
            center_y,
            radius,
            aspect_w,
            aspect_h,
            refractive_index,
        } => {
            assert_eq!(RATE_SCALE, *rate);
            assert_eq!(RATE_SCALE / 2, *center_x);
            assert_eq!(RATE_SCALE / 2, *center_y);
            // At the full rate the refraction is 2.0 - 1.0 = 1.0 and the
            // lens radius half of it.
            assert_eq!(RATE_SCALE, *refractive_index);
            assert_eq!(RATE_SCALE / 2, *radius);
            assert_eq!((8, 4), (*aspect_w, *aspect_h));
        }
        other => panic!("unexpected operation {:?}", other),
    }
}

#[test]
fn transitions_are_selected_by_name() {
    for name in ["simple", "pixels", "quads", "slide", "slides", "fade", "distortion", "sphere"] {
        assert!(Transition::from_name(name).is_some(), "{} should be known", name);
    }
    assert!(Transition::from_name("swirl").is_none());
    assert!(Transition::from_name("").is_none());
    assert!(Transition::from_name("Fade").is_none());
}
