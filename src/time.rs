//! Calendar dates and UTC instants, held as plain values.

use chrono::Datelike;
use vstd::prelude::*;

verus! {

/// The earliest year that chrono's `NaiveDate` accepts.
pub const MIN_YEAR: i32 = -262143;

/// The latest year that chrono's `NaiveDate` accepts.
pub const MAX_YEAR: i32 = 262142;

pub open spec fn is_leap_year(year: int) -> bool {
    year % 4 == 0 && (year % 100 != 0 || year % 400 == 0)
}

pub open spec fn days_in_month(year: int, month: int) -> int {
    if month == 2 {
        if is_leap_year(year) { 29 } else { 28 }
    } else if month == 4 || month == 6 || month == 9 || month == 11 {
        30
    } else {
        31
    }
}

/// A day of the proleptic Gregorian calendar, in the range chrono supports.
pub open spec fn is_valid_date(year: int, month: int, day: int) -> bool {
    &&& MIN_YEAR <= year <= MAX_YEAR
    &&& 1 <= month <= 12
    &&& 1 <= day <= days_in_month(year, month)
}

/// A time of day; a nanosecond count of one second or more marks a leap second,
/// which only the last second of a minute can hold.
pub open spec fn is_valid_time(hour: int, minute: int, second: int, nanosecond: int) -> bool {
    &&& 0 <= hour < 24
    &&& 0 <= minute < 60
    &&& 0 <= second < 60
    &&& 0 <= nanosecond < 2_000_000_000
    &&& nanosecond >= 1_000_000_000 ==> second == 59
}

/// The mathematical value of a `Date`.
pub struct DateModel {
    pub year: int,
    pub month: int,
    pub day: int,
}

/// The mathematical value of a `Timestamp`.
pub struct TimestampModel {
    pub date: DateModel,
    pub hour: int,
    pub minute: int,
    pub second: int,
    pub nanosecond: int,
}

/// Strict chronological order of two days.
pub open spec fn date_before(a: DateModel, b: DateModel) -> bool {
    ||| a.year < b.year
    ||| a.year == b.year && a.month < b.month
    ||| a.year == b.year && a.month == b.month && a.day < b.day
}

/// The day of the week of a date, counted from Monday (0) to Sunday (6).
pub uninterp spec fn weekday_of(year: int, month: int, day: int) -> int;

/// Relies on chrono's `NaiveDate::from_ymd_opt` and `Datelike::weekday`: the day of the
/// week of an existing date, as `Weekday::num_days_from_monday`, which depends on the
/// date alone. `from_ymd_opt` returns `None` on no valid date, which `requires` leaves out.
#[verifier::external_body]
fn chrono_weekday(year: i32, month: u8, day: u8) -> (r: u8)
    requires
        is_valid_date(year as int, month as int, day as int),
    ensures
        r < 7,
        r == weekday_of(year as int, month as int, day as int),
{
    let date = chrono::NaiveDate::from_ymd_opt(year, month as u32, day as u32).unwrap();
    date.weekday().num_days_from_monday() as u8
}

/// A calendar day. Only days that exist can be built.
#[derive(Clone, Copy, Debug)]
pub struct Date {
    year: i32,
    month: u8,
    day: u8,
}

impl View for Date {
    type V = DateModel;

    closed spec fn view(&self) -> DateModel {
        DateModel { year: self.year as int, month: self.month as int, day: self.day as int }
    }
}

impl Date {
    #[verifier::type_invariant]
    spec fn is_valid(self) -> bool {
        is_valid_date(self.year as int, self.month as int, self.day as int)
    }

    /// The day `year-month-day`, or `None` where no such day exists.
    pub fn new(year: i32, month: u8, day: u8) -> (r: Option<Date>)
        ensures
            r is Some <==> is_valid_date(year as int, month as int, day as int),
            r matches Some(d) ==> d@ == (DateModel {
                year: year as int,
                month: month as int,
                day: day as int,
            }),
    {
        if year < MIN_YEAR || year > MAX_YEAR || month < 1 || month > 12 || day < 1 {
            return None;
        }
        let leap = year % 4 == 0 && (year % 100 != 0 || year % 400 == 0);
        let last: u8 = if month == 2 {
            if leap { 29 } else { 28 }
        } else if month == 4 || month == 6 || month == 9 || month == 11 {
            30
        } else {
            31
        };
        if day > last {
            return None;
        }
        Some(Date { year, month, day })
    }

    pub fn year(&self) -> (r: i32)
        ensures
            r == self@.year,
    {
        self.year
    }

    pub fn month(&self) -> (r: u8)
        ensures
            r == self@.month,
    {
        self.month
    }

    pub fn day(&self) -> (r: u8)
        ensures
            r == self@.day,
    {
        self.day
    }

    /// The day of the week, counted from Monday (0) to Sunday (6).
    pub fn weekday(&self) -> (r: u8)
        ensures
            r < 7,
            r == weekday_of(self@.year, self@.month, self@.day),
    {
        proof {
            use_type_invariant(self);
        }
        chrono_weekday(self.year, self.month, self.day)
    }

    pub fn equals(&self, other: &Date) -> (r: bool)
        ensures
            r == (self@ == other@),
    {
        self.year == other.year && self.month == other.month && self.day == other.day
    }

    pub fn is_before(&self, other: &Date) -> (r: bool)
        ensures
            r == date_before(self@, other@),
    {
        self.year < other.year || (self.year == other.year && (self.month < other.month || (
        self.month == other.month && self.day < other.day)))
    }
}

/// A UTC instant, split into its day and its time of day. Only instants that exist can
/// be built; two instants are the same exactly when all their parts are.
#[derive(Clone, Copy, Debug)]
pub struct Timestamp {
    date: Date,
    hour: u8,
    minute: u8,
    second: u8,
    nanosecond: u32,
}

impl View for Timestamp {
    type V = TimestampModel;

    closed spec fn view(&self) -> TimestampModel {
        TimestampModel {
            date: self.date@,
            hour: self.hour as int,
            minute: self.minute as int,
            second: self.second as int,
            nanosecond: self.nanosecond as int,
        }
    }
}

impl Timestamp {
    #[verifier::type_invariant]
    spec fn is_valid(self) -> bool {
        is_valid_time(self.hour as int, self.minute as int, self.second as int, self.nanosecond as int)
    }

    /// The instant `hour:minute:second.nanosecond` UTC on `date`, or `None` where the time
    /// of day does not exist.
    pub fn new(date: Date, hour: u8, minute: u8, second: u8, nanosecond: u32) -> (r: Option<
        Timestamp,
    >)
        ensures
            r is Some <==> is_valid_time(
                hour as int,
                minute as int,
                second as int,
                nanosecond as int,
            ),
            r matches Some(t) ==> t@ == (TimestampModel {
                date: date@,
                hour: hour as int,
                minute: minute as int,
                second: second as int,
                nanosecond: nanosecond as int,
            }),
    {
        if hour >= 24 || minute >= 60 || second >= 60 || nanosecond >= 2_000_000_000 {
            return None;
        }
        if nanosecond >= 1_000_000_000 && second != 59 {
            return None;
        }
        Some(Timestamp { date, hour, minute, second, nanosecond })
    }

    pub fn date(&self) -> (r: Date)
        ensures
            r@ == self@.date,
    {
        self.date
    }

    pub fn hour(&self) -> (r: u8)
        ensures
            r == self@.hour,
    {
        self.hour
    }

    pub fn minute(&self) -> (r: u8)
        ensures
            r == self@.minute,
    {
        self.minute
    }

    pub fn second(&self) -> (r: u8)
        ensures
            r == self@.second,
    {
        self.second
    }

    pub fn nanosecond(&self) -> (r: u32)
        ensures
            r == self@.nanosecond,
    {
        self.nanosecond
    }

    /// Whether the two denote the same instant.
    pub fn same_instant(&self, other: &Timestamp) -> (r: bool)
        ensures
            r == (self@ == other@),
    {
        self.date.equals(&other.date) && self.hour == other.hour && self.minute == other.minute
            && self.second == other.second && self.nanosecond == other.nanosecond
    }
}

} // verus!
