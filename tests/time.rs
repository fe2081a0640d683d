use calendarbot::time::{Date, Timestamp};

#[test]
fn date_accepts_existing_days_only() {
    assert!(Date::new(2024, 2, 29).is_some());
    assert!(Date::new(2023, 2, 29).is_none());
    assert!(Date::new(2000, 2, 29).is_some());
    assert!(Date::new(1900, 2, 29).is_none());
    assert!(Date::new(2024, 4, 31).is_none());
    assert!(Date::new(2024, 13, 1).is_none());
    assert!(Date::new(2024, 1, 0).is_none());
    assert!(Date::new(262142, 12, 31).is_some());
    assert!(Date::new(262143, 1, 1).is_none());
    assert!(Date::new(-262143, 1, 1).is_some());
    assert!(Date::new(-262144, 1, 1).is_none());
}

#[test]
fn date_parts_are_kept() {
    let d = Date::new(2024, 5, 3).unwrap();
    assert_eq!((d.year(), d.month(), d.day()), (2024, 5, 3));
}

#[test]
fn weekday_counts_from_monday() {
    assert_eq!(Date::new(2024, 5, 3).unwrap().weekday(), 4);
    assert_eq!(Date::new(2024, 1, 1).unwrap().weekday(), 0);
    assert_eq!(Date::new(2023, 12, 31).unwrap().weekday(), 6);
}

#[test]
fn timestamp_rejects_impossible_times() {
    let d = Date::new(2024, 5, 3).unwrap();
    assert!(Timestamp::new(d, 23, 59, 59, 999_999_999).is_some());
    assert!(Timestamp::new(d, 24, 0, 0, 0).is_none());
    assert!(Timestamp::new(d, 10, 60, 0, 0).is_none());
    assert!(Timestamp::new(d, 10, 0, 60, 0).is_none());
    assert!(Timestamp::new(d, 10, 0, 59, 1_500_000_000).is_some());
    assert!(Timestamp::new(d, 10, 0, 58, 1_500_000_000).is_none());
    assert!(Timestamp::new(d, 10, 0, 59, 2_000_000_000).is_none());
}

#[test]
fn same_instant_compares_every_part() {
    let d = Date::new(2024, 5, 3).unwrap();
    let a = Timestamp::new(d, 9, 0, 0, 0).unwrap();
    let b = Timestamp::new(d, 9, 0, 0, 0).unwrap();
    let c = Timestamp::new(d, 9, 0, 0, 1).unwrap();
    let e = Timestamp::new(Date::new(2024, 5, 4).unwrap(), 9, 0, 0, 0).unwrap();
    assert!(a.same_instant(&b));
    assert!(!a.same_instant(&c));
    assert!(!a.same_instant(&e));
}
