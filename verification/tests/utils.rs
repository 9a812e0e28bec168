//! Duration formatting with thousands separators.

use slideshow::format_duration;

#[test]
fn sub_second_durations_show_millis_only() {
    assert_eq!("0 millis", format_duration(0));
    assert_eq!("500 millis", format_duration(500));
    assert_eq!("999 millis", format_duration(999));
}

#[test]
fn one_second_is_singular() {
    assert_eq!("1 second 0 millis", format_duration(1000));
    assert_eq!("1 second 234 millis", format_duration(1234));
}

#[test]
fn longer_durations_are_plural_and_separated() {
    assert_eq!("2 seconds 0 millis", format_duration(2000));
    assert_eq!("59 seconds 999 millis", format_duration(59_999));
    assert_eq!("1,234 seconds 567 millis", format_duration(1_234_567));
    assert_eq!("1,234,567 seconds 890 millis", format_duration(1_234_567_890));
}
