//! The playlist controller end to end: load, reveal, cooldown, advance.

use std::collections::HashSet;

use slideshow::{Canvas, ConfigError, Frame, Rgba, SlideShow, LOAD_IMAGE_DELAY};

fn three_files() -> Vec<String> {
    vec!["a.png".to_string(), "b.jpg".to_string(), "c.bmp".to_string()]
}

fn white_frame() -> Frame {
    Frame::filled(2, 2, Rgba { r: 255, g: 255, b: 255, a: 255 }).unwrap()
}

#[test]
fn fade_show_completes_once_and_arms_one_advance() {
    let mut show = SlideShow::new(three_files(), Some("fade")).unwrap();

    // The first tick asks for an image.
    let first = show.update(0).expect("first tick should load an image");
    assert!(three_files().contains(&first));
    show.install_image(white_frame(), 2, 2).unwrap();

    // 256 reveal steps: the transition reports completion exactly once,
    // on the very last one.
    let mut canvas = Canvas::new();
    let mut completions = 0;
    for step in 0..256 {
        let running = show.draw(1 + step as u64, &mut canvas);
        if !running {
            completions += 1;
            assert_eq!(255, step, "completion before the final step");
        }
    }
    assert_eq!(1, completions);

    // Exactly one advance event was armed, with the configured
    // cooldown: polls before it report nothing, the poll at it reports
    // the next image, and no further event remains.
    let armed_at = 256u64;
    assert!(show.update(armed_at + LOAD_IMAGE_DELAY - 1).is_none());
    let second = show.update(armed_at + LOAD_IMAGE_DELAY);
    assert!(second.is_some(), "advance event should have fired");
    assert!(show.update(armed_at + 10 * LOAD_IMAGE_DELAY).is_none());
}

#[test]
fn files_cycle_through_the_whole_shuffled_list() {
    let mut show = SlideShow::new(three_files(), Some("simple")).unwrap();
    let mut seen = HashSet::new();
    let mut now = 0u64;
    for _ in 0..6 {
        let name = loop {
            if let Some(name) = show.update(now) {
                break name;
            }
            now += 1000;
        };
        seen.insert(name);
        show.install_image(white_frame(), 2, 2).unwrap();
        let mut canvas = Canvas::new();
        while show.draw(now, &mut canvas) {}
        now += 1;
    }
    // Two full cycles over three files: every file was shown.
    let expected: HashSet<String> = three_files().into_iter().collect();
    assert_eq!(expected, seen);
}

#[test]
fn unknown_transition_is_a_configuration_error() {
    assert_eq!(
        Err(ConfigError::UnknownTransition),
        SlideShow::new(three_files(), Some("swirl")).map(|_| ())
    );
}

#[test]
fn empty_image_list_is_a_configuration_error() {
    assert_eq!(
        Err(ConfigError::NoImages),
        SlideShow::new(Vec::new(), Some("fade")).map(|_| ())
    );
    assert_eq!(Err(ConfigError::NoImages), SlideShow::new(Vec::new(), None).map(|_| ()));
}

#[test]
fn absent_name_defaults_to_fade() {
    let mut show = SlideShow::new(three_files(), None).unwrap();
    show.update(0).unwrap();
    show.install_image(white_frame(), 2, 2).unwrap();
    let mut canvas = Canvas::new();
    let mut steps = 0;
    while show.draw(1, &mut canvas) {
        steps += 1;
        assert!(steps < 1000);
    }
    // A fade takes its full 256 steps.
    assert_eq!(255, steps);
}

#[test]
fn degenerate_canvas_is_rejected_and_show_left_waiting() {
    let mut show = SlideShow::new(three_files(), Some("fade")).unwrap();
    show.update(0).unwrap();
    assert!(show.install_image(white_frame(), 0, 2).is_err());
    // Still waiting: a draw does nothing.
    let mut canvas = Canvas::new();
    assert!(!show.draw(1, &mut canvas));
    assert!(canvas.ops.is_empty());
}
