use calendarbot::text::parse_u64;
use calendarbot::utilities::{age_reply, uptime_reply};

#[test]
fn uptime_splits_seconds() {
    assert_eq!(uptime_reply(0), "Uptime: 0d 0h 0m 0s");
    assert_eq!(uptime_reply(93784), "Uptime: 1d 2h 3m 4s");
    assert_eq!(uptime_reply(86399), "Uptime: 0d 23h 59m 59s");
    assert_eq!(uptime_reply(u64::MAX), "Uptime: 213503982334601d 7h 0m 15s");
}

#[test]
fn age_names_the_user() {
    assert_eq!(
        age_reply("ferris", "2015-05-15T00:00:00Z"),
        "ferris's account was created at 2015-05-15T00:00:00Z"
    );
}

#[test]
fn ids_parse_like_std() {
    assert_eq!(parse_u64("1102198299093647470"), Some(1102198299093647470));
    assert_eq!(parse_u64("+7"), Some(7));
    assert_eq!(parse_u64("0"), Some(0));
    assert_eq!(parse_u64("18446744073709551615"), Some(u64::MAX));
    assert_eq!(parse_u64("18446744073709551616"), None);
    assert_eq!(parse_u64("99999999999999999999x"), None);
    assert_eq!(parse_u64(""), None);
    assert_eq!(parse_u64("+"), None);
    assert_eq!(parse_u64("-1"), None);
    assert_eq!(parse_u64(" 1"), None);
    assert_eq!(parse_u64("1_000"), None);
    for text in ["", "+", "++1", "007", "+0", "12a", "١٢", "4294967296", "18446744073709551615"] {
        assert_eq!(parse_u64(text), text.parse::<u64>().ok(), "{}", text);
    }
}
