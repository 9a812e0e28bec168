//! The cooperative timer: pacing of recurring events and removal of
//! one-shot events.

use slideshow::{SyncEvent, SyncTimer};

#[test]
fn recurring_event_fires_at_most_once_per_poll() {
    let mut timer = SyncTimer::new();
    timer.add(SyncEvent::new("tick", 100, true, 0));
    // Far more than one interval has elapsed, yet one poll reports the
    // event exactly once: there is no catch-up burst.
    let fired = timer.fired(1000);
    assert_eq!(vec!["tick"], fired);
    // The event restarted at the poll instant, so a poll before a full
    // further interval reports nothing...
    assert!(timer.fired(1050).is_empty());
    // ...and one at the interval reports it again.
    assert_eq!(vec!["tick"], timer.fired(1100));
}

#[test]
fn one_shot_event_never_fires_twice() {
    let mut timer = SyncTimer::new();
    timer.add(SyncEvent::new("once", 100, false, 0));
    assert!(timer.fired(50).is_empty());
    let fired = timer.fired(150);
    assert_eq!(vec!["once"], fired);
    // The firing poll dropped the event: two consecutive polls never
    // both report a one-shot.
    assert!(timer.fired(151).is_empty());
    assert!(timer.fired(10_000).is_empty());
}

#[test]
fn zero_interval_fires_on_the_next_poll() {
    let mut timer = SyncTimer::new();
    timer.add(SyncEvent::new("now", 0, false, 7));
    assert_eq!(vec!["now"], timer.fired(7));
}

#[test]
fn duplicate_names_are_tracked_independently() {
    let mut timer = SyncTimer::new();
    timer.add(SyncEvent::new("dup", 100, false, 0));
    timer.add(SyncEvent::new("dup", 300, false, 0));
    assert_eq!(vec!["dup"], timer.fired(200));
    assert_eq!(vec!["dup"], timer.fired(400));
    assert!(timer.fired(500).is_empty());
}

#[test]
fn events_report_in_registration_order() {
    let mut timer = SyncTimer::new();
    timer.add(SyncEvent::new("a", 10, true, 0));
    timer.add(SyncEvent::new("b", 20, true, 0));
    timer.add(SyncEvent::new("c", 400, true, 0));
    assert_eq!(vec!["a", "b"], timer.fired(30));
}
