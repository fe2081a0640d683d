use calendarbot::registration::{Calendar, CalendarRowError};

fn row(
    google_id: Option<&str>,
    timezone: Option<&str>,
    poll: Option<i32>,
) -> Result<Calendar, CalendarRowError> {
    Calendar::from_row(Some(1), google_id.map(String::from), timezone.map(String::from), poll)
}

#[test]
fn complete_row_gives_calendar() {
    let c = row(Some("team@group.calendar.google.com"), Some("Europe/Zurich"), Some(10)).unwrap();
    assert_eq!(c.id, Some(1));
    assert_eq!(c.google_id, "team@group.calendar.google.com");
    assert_eq!(c.timezone, chrono_tz::Europe::Zurich);
    assert_eq!(c.poll_interval, 10);
}

#[test]
fn missing_columns_are_reported_in_order() {
    assert_eq!(row(None, None, None).err(), Some(CalendarRowError::MissingGoogleId));
    assert_eq!(row(Some("g"), None, None).err(), Some(CalendarRowError::MissingTimezone));
    assert_eq!(row(Some("g"), Some("UTC"), None).err(), Some(CalendarRowError::MissingPollInterval));
}

#[test]
fn unknown_zone_is_reported() {
    assert_eq!(
        row(Some("g"), Some("Mars/Olympus"), Some(10)).err(),
        Some(CalendarRowError::UnknownTimezone { name: "Mars/Olympus".to_string() })
    );
}
