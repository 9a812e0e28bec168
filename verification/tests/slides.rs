//! The sliding-panel reveal: strip motion, clamping, and the full pass.

use slideshow::{Canvas, Direction, DrawOp, Frame, Slide, Slides, SLIDE_VELOCITY};

#[test]
fn slides_test_left_slide() {
    let mut slide = Slide::left(8, 100, 50, 0);

    assert_eq!(false, slide.ended);

    slide.update();

    assert_eq!(false, slide.ended);
    assert_eq!(100 - SLIDE_VELOCITY, slide.x);

    assert_eq!(SLIDE_VELOCITY, slide.width);
}

#[test]
fn slides_test_right_slide() {
    let mut slide = Slide::right(8, 100, 50, 0);

    assert_eq!(false, slide.ended);

    slide.update();

    assert_eq!(false, slide.ended);
    assert_eq!(0, slide.x);

    assert_eq!(SLIDE_VELOCITY, slide.width);
}

#[test]
fn slide_ends_clamped_to_full_width() {
    let mut left = Slide::left(8, 100, 50, 0);
    let mut right = Slide::right(8, 100, 50, 0);
    let mut steps = 0;
    while !left.ended {
        assert!(left.width < 100);
        left.update();
        steps += 1;
        assert!(steps < 1000, "left strip never ended");
    }
    assert_eq!(100, left.width);
    assert_eq!(0, left.x);
    while !right.ended {
        assert!(right.width < 100);
        right.update();
    }
    assert_eq!(100, right.width);
    assert_eq!(0, right.x);
}

#[test]
fn strips_alternate_and_space_evenly() {
    let mut slides = Slides::new(8);
    let frame = Frame::filled(100, 50, slideshow::Rgba { r: 1, g: 2, b: 3, a: 255 }).unwrap();
    slides.update_image(frame);
    assert_eq!(8, slides.slides.len());
    for (i, s) in slides.slides.iter().enumerate() {
        assert_eq!((i as u32) * 50 / 8, s.y);
        assert_eq!(50 / 8, s.height);
        assert_eq!(0, s.width);
        if i % 2 == 0 {
            assert_eq!(Direction::Left, s.direction);
            assert_eq!(100, s.x);
        } else {
            assert_eq!(Direction::Right, s.direction);
            assert_eq!(0, s.x);
        }
    }
}

#[test]
fn full_reveal_completes_and_blits_each_strip() {
    let mut slides = Slides::new(2);
    let frame = Frame::filled(40, 20, slideshow::Rgba { r: 9, g: 9, b: 9, a: 255 }).unwrap();
    slides.update_image(frame);
    let mut canvas = Canvas::new();
    let mut passes = 0;
    while slides.draw(&mut canvas) {
        passes += 1;
        assert!(passes < 1000, "reveal never completed");
    }
    // Every operation is a blit of one strip.
    for op in &canvas.ops {
        match op {
            DrawOp::Blit { src_y, height, .. } => {
                assert!(*src_y == 0 || *src_y == 10);
                assert_eq!(10, *height);
            }
            other => panic!("unexpected operation {:?}", other),
        }
    }
    // Once complete, a further pass draws nothing and reports completion.
    let before = canvas.ops.len();
    assert!(!slides.draw(&mut canvas));
    assert_eq!(before, canvas.ops.len());
}
