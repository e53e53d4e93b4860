use battery_notify::SingleNotification;
use battery_notify::Urgency;
use battery_notify::next_schedule;

#[test]
fn fresh_slot_shows_nothing() {
    let slot = SingleNotification::default();
    assert!(!slot.live());
    assert!(slot.summary_text().is_none());
}

#[test]
fn show_remembers_the_text() {
    let mut slot = SingleNotification::default();
    slot.show("Battery low".to_string(), Urgency::Critical, 0);
    assert_eq!(slot.summary_text().unwrap(), "Battery low");
}

#[test]
fn identical_show_is_a_no_op() {
    let mut slot = SingleNotification::default();
    slot.show("Battery low".to_string(), Urgency::Critical, 0);
    let was_live = slot.live();
    slot.show("Battery low".to_string(), Urgency::Critical, 0);
    assert_eq!(slot.summary_text().unwrap(), "Battery low");
    assert_eq!(slot.live(), was_live);
}

#[test]
fn changed_text_replaces_the_notification() {
    let mut slot = SingleNotification::default();
    slot.show("Battery low".to_string(), Urgency::Critical, 0);
    slot.show("Battery critical".to_string(), Urgency::Critical, 0);
    assert_eq!(slot.summary_text().unwrap(), "Battery critical");
}

#[test]
fn close_without_a_notification_is_a_no_op() {
    let mut slot = SingleNotification::default();
    slot.close();
    assert!(!slot.live());
    assert!(slot.summary_text().is_none());
}

#[test]
fn close_drops_the_handle() {
    let mut slot = SingleNotification::default();
    slot.show("Battery low".to_string(), Urgency::Critical, 0);
    let was_live = slot.live();
    slot.close();
    assert!(!slot.live());
    if was_live {
        // With a notification server present, closing also clears the
        // remembered text so the next show is a fresh one.
        assert!(slot.summary_text().is_none());
    }
}

#[test]
fn scheduler_sleeps_until_the_wake_time() {
    let (sleep_ms, next_wake) = next_schedule(100, 150, 50);
    assert_eq!(sleep_ms, 50);
    assert_eq!(next_wake, 200);
}

#[test]
fn scheduler_catches_up_after_an_overrun() {
    // The tick finished past its scheduled wake: no sleep backlog is
    // replayed; the schedule resets to one interval from now.
    let (sleep_ms, next_wake) = next_schedule(200, 150, 50);
    assert_eq!(sleep_ms, 0);
    assert_eq!(next_wake, 250);
    // An exactly-on-time wake resets as well rather than sleeping zero.
    let (sleep_ms, next_wake) = next_schedule(150, 150, 50);
    assert_eq!(sleep_ms, 0);
    assert_eq!(next_wake, 200);
}
