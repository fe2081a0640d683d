use calendarbot::event::Event;
use calendarbot::render::{render, RenderError};
use calendarbot::time::{Date, Timestamp};

fn date(y: i32, m: u8, d: u8) -> Date {
    Date::new(y, m, d).unwrap()
}

fn at(y: i32, mo: u8, d: u8, h: u8, mi: u8) -> Option<Timestamp> {
    Timestamp::new(date(y, mo, d), h, mi, 0, 0)
}

fn event(start: Option<Timestamp>, end: Option<Timestamp>, summary: &str) -> Event {
    Event { id: None, start, end, summary: summary.to_string() }
}

#[test]
fn same_day_events_share_one_section() {
    let events = vec![
        event(at(2024, 5, 3, 9, 0), at(2024, 5, 3, 10, 0), "Standup"),
        event(at(2024, 5, 3, 14, 0), at(2024, 5, 3, 15, 0), "Review"),
    ];
    let n = render(&events, &date(2024, 6, 1)).unwrap();
    assert_eq!(n.title, "Events");
    assert_eq!(n.sections.len(), 1);
    assert_eq!(n.sections[0].heading, "Friday — 3 May");
    assert_eq!(
        n.sections[0].body,
        "```09:00 - 10:00 | Standup```\n```14:00 - 15:00 | Review```\n"
    );
}

#[test]
fn cross_year_event_uses_iso_dates() {
    let events = vec![event(at(2023, 12, 31, 22, 0), at(2024, 1, 1, 2, 0), "Party")];
    let n = render(&events, &date(2024, 1, 1)).unwrap();
    assert_eq!(n.sections.len(), 1);
    assert_eq!(n.sections[0].heading, "2023-12-31 // 2024-01-01");
    assert_eq!(n.sections[0].body, "```22:00 - 02:00 | Party```\n");
}

#[test]
fn empty_list_renders_no_section() {
    let n = render(&Vec::new(), &date(2024, 5, 3)).unwrap();
    assert_eq!(n.title, "Events");
    assert!(n.sections.is_empty());
}

#[test]
fn missing_end_rejects_the_batch() {
    let events = vec![
        event(at(2024, 5, 3, 9, 0), at(2024, 5, 3, 10, 0), "Standup"),
        event(at(2024, 5, 3, 14, 0), None, "Review"),
        event(None, at(2024, 5, 3, 15, 0), "Demo"),
    ];
    assert_eq!(render(&events, &date(2024, 5, 3)).unwrap_err(), RenderError::MissingTime { index: 1 });
}

#[test]
fn missing_start_rejects_the_batch() {
    let events = vec![event(None, at(2024, 5, 3, 10, 0), "Standup")];
    assert_eq!(render(&events, &date(2024, 5, 3)).unwrap_err(), RenderError::MissingTime { index: 0 });
}

#[test]
fn sections_come_in_ascending_key_order() {
    let events = vec![
        event(at(2024, 5, 6, 9, 0), at(2024, 5, 6, 10, 0), "Monday"),
        event(at(2024, 5, 3, 9, 0), at(2024, 5, 4, 10, 0), "Overnight"),
        event(at(2024, 5, 3, 14, 0), at(2024, 5, 3, 15, 0), "Review"),
        event(at(2024, 5, 3, 8, 0), at(2024, 5, 3, 8, 30), "Early"),
    ];
    let n = render(&events, &date(2024, 5, 1)).unwrap();
    let headings: Vec<&str> = n.sections.iter().map(|s| s.heading.as_str()).collect();
    assert_eq!(
        headings,
        vec!["Friday — 3 May", "Friday — 3 May // Saturday — 4 May", "Monday — 6 May"]
    );
    assert_eq!(
        n.sections[0].body,
        "```14:00 - 15:00 | Review```\n```08:00 - 08:30 | Early```\n"
    );
    assert_eq!(n.sections[1].body, "```09:00 - 10:00 | Overnight```\n");
    assert_eq!((n.sections[1].start_date.day(), n.sections[1].end_date.day()), (3, 4));
}

#[test]
fn other_year_uses_iso_dates() {
    let events = vec![event(at(2025, 2, 7, 9, 5), at(2025, 2, 7, 9, 45), "Planning")];
    let n = render(&events, &date(2024, 12, 30)).unwrap();
    assert_eq!(n.sections[0].heading, "2025-02-07");
    assert_eq!(n.sections[0].body, "```09:05 - 09:45 | Planning```\n");
}

#[test]
fn multi_day_same_year_uses_long_dates() {
    let events = vec![event(at(2024, 12, 30, 9, 0), at(2024, 12, 31, 17, 0), "Offsite")];
    let n = render(&events, &date(2024, 11, 1)).unwrap();
    assert_eq!(n.sections[0].heading, "Monday — 30 December // Tuesday — 31 December");
}

#[test]
fn small_and_negative_years_are_padded() {
    let events = vec![
        event(at(5, 3, 1, 0, 0), at(5, 3, 1, 1, 0), "Ancient"),
        event(at(-44, 3, 15, 12, 0), at(-44, 3, 15, 13, 0), "Ides"),
        event(at(12345, 1, 2, 0, 0), at(12345, 1, 2, 1, 0), "Future"),
    ];
    let n = render(&events, &date(2024, 1, 1)).unwrap();
    let headings: Vec<&str> = n.sections.iter().map(|s| s.heading.as_str()).collect();
    assert_eq!(headings, vec!["-0044-03-15", "0005-03-01", "+12345-01-02"]);
}
