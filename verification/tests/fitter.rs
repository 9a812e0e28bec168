//! The image fitter: geometry, determinism, and letterbox composition.

use slideshow::{fit, fit_frame, letterbox, FitError, Frame, Rgba};

#[test]
fn wide_source_is_width_limited() {
    // A 1000 by 500 source in an 800 by 600 canvas: the scale is the
    // smaller of 800/1000 and 600/500, so the image becomes 800 by 400
    // with 100-pixel bars above and below.
    let g = fit(1000, 500, 800, 600).unwrap();
    assert_eq!(800, g.scale_num);
    assert_eq!(1000, g.scale_den);
    assert_eq!(800, g.width);
    assert_eq!(400, g.height);
    assert_eq!(0, g.offset_x);
    assert_eq!(100, g.offset_y);
}

#[test]
fn tall_source_is_height_limited() {
    let g = fit(500, 1000, 800, 600).unwrap();
    assert_eq!(600, g.scale_num);
    assert_eq!(1000, g.scale_den);
    assert_eq!(300, g.width);
    assert_eq!(600, g.height);
    assert_eq!(250, g.offset_x);
    assert_eq!(0, g.offset_y);
}

#[test]
fn fitting_twice_yields_identical_geometry() {
    let g1 = fit(1000, 500, 800, 600).unwrap();
    let g2 = fit(1000, 500, 800, 600).unwrap();
    assert_eq!(g1, g2);
}

#[test]
fn zero_dimensions_are_rejected() {
    assert_eq!(Err(FitError::InvalidDimensions), fit(0, 500, 800, 600));
    assert_eq!(Err(FitError::InvalidDimensions), fit(1000, 0, 800, 600));
    assert_eq!(Err(FitError::InvalidDimensions), fit(1000, 500, 0, 600));
    assert_eq!(Err(FitError::InvalidDimensions), fit(1000, 500, 800, 0));
    let frame = Frame::filled(10, 10, Rgba { r: 1, g: 1, b: 1, a: 255 }).unwrap();
    assert!(fit_frame(&frame, 0, 5).is_err());
}

#[test]
fn letterbox_centers_and_fills_border_black() {
    let white = Rgba { r: 255, g: 255, b: 255, a: 255 };
    let scaled = Frame::filled(2, 1, white).unwrap();
    let out = letterbox(&scaled, 4, 3, 1, 1);
    assert_eq!(4, out.width);
    assert_eq!(3, out.height);
    for y in 0..3u32 {
        for x in 0..4u32 {
            let c = out.pixel(x, y);
            if y == 1 && (x == 1 || x == 2) {
                assert_eq!(white, c);
            } else {
                assert_eq!(Rgba { r: 0, g: 0, b: 0, a: 255 }, c);
            }
        }
    }
}

#[test]
fn fit_frame_resamples_and_letterboxes() {
    // A solid white source: resampling a constant image keeps the
    // constant, so the scaled area is white and the border black.
    let white = Rgba { r: 255, g: 255, b: 255, a: 255 };
    let src = Frame::filled(8, 4, white).unwrap();
    let out = fit_frame(&src, 4, 4).unwrap();
    assert_eq!(4, out.width);
    assert_eq!(4, out.height);
    // Scale 4/8: the image becomes 4 by 2, centered with 1-pixel bars.
    for x in 0..4u32 {
        assert_eq!(Rgba { r: 0, g: 0, b: 0, a: 255 }, out.pixel(x, 0));
        assert_eq!(Rgba { r: 0, g: 0, b: 0, a: 255 }, out.pixel(x, 3));
        assert_eq!(white, out.pixel(x, 1));
        assert_eq!(white, out.pixel(x, 2));
    }
}
