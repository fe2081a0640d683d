use calendarbot::dispatch::{Delivery, Reply};
use calendarbot::event::Event;
use calendarbot::render::RenderError;
use calendarbot::time::{Date, Timestamp};
use calendarbot::tracker::{Plan, Tracker, UpdateCalendarEvent};

fn at(d: u8, h: u8) -> Option<Timestamp> {
    Timestamp::new(Date::new(2024, 5, d).unwrap(), h, 0, 0, 0)
}

fn events() -> Vec<Event> {
    vec![
        Event { id: None, start: at(3, 9), end: at(3, 10), summary: "Standup".to_string() },
        Event { id: None, start: at(3, 14), end: at(3, 15), summary: "Review".to_string() },
    ]
}

fn update(id: &str, new_events: Vec<Event>) -> UpdateCalendarEvent {
    UpdateCalendarEvent { calendar_id: id.to_string(), new_events }
}

fn today() -> Date {
    Date::new(2024, 5, 1).unwrap()
}

/// Runs one consumer cycle with the given platform replies; returns the plan's prior.
fn cycle(t: &mut Tracker, u: UpdateCalendarEvent, replies: &[Reply]) -> Option<Option<u64>> {
    match t.plan(u, &today()) {
        Plan::Deliver { calendar_id, new_events, notification, prior } => {
            assert_eq!(notification.sections.len(), 1);
            let mut d = Delivery::begin(prior);
            for r in replies {
                d = d.advance(*r);
            }
            t.settle(calendar_id, new_events, d);
            Some(prior)
        }
        _ => None,
    }
}

#[test]
fn first_sighting_posts_then_repeat_is_quiet() {
    let mut t = Tracker::new();
    assert_eq!(cycle(&mut t, update("a", events()), &[Reply::Accepted { message_id: 10 }]), Some(None));
    assert!(matches!(t.plan(update("a", events()), &today()), Plan::Unchanged));
}

#[test]
fn changed_events_edit_the_prior_message() {
    let mut t = Tracker::new();
    cycle(&mut t, update("a", events()), &[Reply::Accepted { message_id: 10 }]);
    let mut changed = events();
    changed[1].summary = "Retro".to_string();
    assert_eq!(cycle(&mut t, update("a", changed.clone()), &[Reply::Accepted { message_id: 10 }]), Some(Some(10)));
    assert!(matches!(t.plan(update("a", changed), &today()), Plan::Unchanged));
}

#[test]
fn refused_edit_records_the_new_message() {
    let mut t = Tracker::new();
    cycle(&mut t, update("a", events()), &[Reply::Accepted { message_id: 10 }]);
    let mut changed = events();
    changed.pop();
    let prior = cycle(
        &mut t,
        update("a", changed),
        &[Reply::Refused, Reply::Accepted { message_id: 11 }],
    );
    assert_eq!(prior, Some(Some(10)));
    match t.plan(update("a", events()), &today()) {
        Plan::Deliver { prior, .. } => assert_eq!(prior, Some(11)),
        _ => panic!("the events changed back"),
    }
}

#[test]
fn failed_delivery_keeps_the_cache() {
    let mut t = Tracker::new();
    cycle(&mut t, update("a", events()), &[Reply::Refused]);
    match t.plan(update("a", events()), &today()) {
        Plan::Deliver { prior, .. } => assert_eq!(prior, None),
        _ => panic!("an undelivered change must be tried again"),
    }
}

#[test]
fn malformed_batch_is_rejected_and_cache_kept() {
    let mut t = Tracker::new();
    cycle(&mut t, update("a", events()), &[Reply::Accepted { message_id: 10 }]);
    let mut broken = events();
    broken[1].end = None;
    match t.plan(update("a", broken), &today()) {
        Plan::Rejected(e) => assert_eq!(e, RenderError::MissingTime { index: 1 }),
        _ => panic!("a malformed batch must be rejected"),
    }
    assert!(matches!(t.plan(update("a", events()), &today()), Plan::Unchanged));
}

#[test]
fn calendars_are_kept_apart() {
    let mut t = Tracker::new();
    cycle(&mut t, update("a", events()), &[Reply::Accepted { message_id: 10 }]);
    assert_eq!(cycle(&mut t, update("b", events()), &[Reply::Accepted { message_id: 20 }]), Some(None));
    assert!(matches!(t.plan(update("a", events()), &today()), Plan::Unchanged));
    assert!(matches!(t.plan(update("b", events()), &today()), Plan::Unchanged));
    match t.plan(update("b", Vec::new()), &today()) {
        Plan::Deliver { prior, notification, .. } => {
            assert_eq!(prior, Some(20));
            assert!(notification.sections.is_empty());
        }
        _ => panic!("an emptied calendar changed"),
    }
}
