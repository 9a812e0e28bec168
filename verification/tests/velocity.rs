//! The velocity curve: piecewise-linear interpolation over fixed-point
//! samples, with exact endpoints.

use slideshow::{StepsVelocity, VELOCITY_SCALE};

fn curve() -> StepsVelocity {
    // Samples 1.0, 0.75, 0.5, 0.25, 0.0 in fixed-point units.
    StepsVelocity::new(vec![1000, 750, 500, 250, 0])
}

#[test]
fn test_steps_velocity() {
    let vel = curve();

    let mut v = vel.get_velocity(100); // progress 0.1
    assert!(v > 750 && v < 1000);

    v = vel.get_velocity(250); // progress 0.25
    assert_eq!(750, v);

    v = vel.get_velocity(300); // progress 0.3
    assert!(v > 500 && v < 750);
}

#[test]
fn endpoints_are_exact() {
    let vel = curve();
    assert_eq!(1000, vel.get_velocity(0));
    assert_eq!(0, vel.get_velocity(VELOCITY_SCALE));
}

#[test]
fn midpoints_hit_samples_exactly() {
    let vel = curve();
    assert_eq!(500, vel.get_velocity(500));
    assert_eq!(250, vel.get_velocity(750));
}

#[test]
fn two_samples_interpolate_linearly() {
    let vel = StepsVelocity::new(vec![0, 1000]);
    assert_eq!(0, vel.get_velocity(0));
    assert_eq!(400, vel.get_velocity(400));
    assert_eq!(1000, vel.get_velocity(1000));
}
