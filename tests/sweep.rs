use calendarbot::event::Event;
use calendarbot::sweep::{FetchError, Sweep};
use calendarbot::time::{Date, Timestamp};

fn one_event() -> Vec<Event> {
    let at = |h| Timestamp::new(Date::new(2024, 5, 3).unwrap(), h, 0, 0, 0);
    vec![Event { id: Some("x".to_string()), start: at(9), end: at(10), summary: "Standup".to_string() }]
}

#[test]
fn failed_fetch_skips_only_its_calendar() {
    let mut sweep = Sweep::new(vec!["a".to_string(), "b".to_string()]);
    assert_eq!(sweep.next_calendar(), Some("a".to_string()));
    let first = sweep.record(Err(FetchError { reason: "timeout".to_string() }));
    assert!(first.is_none());
    assert_eq!(sweep.next_calendar(), Some("b".to_string()));
    let second = sweep.record(Ok(one_event())).unwrap();
    assert_eq!(second.calendar_id, "b");
    assert_eq!(second.new_events.len(), 1);
    assert_eq!(sweep.next_calendar(), None);
    assert!(sweep.record(Ok(one_event())).is_none());
}

#[test]
fn empty_fetch_is_still_handed_over() {
    let mut sweep = Sweep::new(vec!["a".to_string()]);
    let u = sweep.record(Ok(Vec::new())).unwrap();
    assert_eq!(u.calendar_id, "a");
    assert!(u.new_events.is_empty());
}

#[test]
fn sweep_without_calendars_is_done() {
    let sweep = Sweep::new(Vec::new());
    assert_eq!(sweep.next_calendar(), None);
}
