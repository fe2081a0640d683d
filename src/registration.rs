//! A registered calendar, as read back from the database.

use chrono_tz::Tz;
use vstd::prelude::*;

verus! {

#[verifier::external_type_specification]
#[verifier::external_body]
pub struct ExTz(Tz);

/// Whether chrono-tz knows a time zone by exactly this name.
pub uninterp spec fn is_known_zone(name: Seq<char>) -> bool;

/// Relies on chrono-tz's `FromStr for Tz`: a lookup of the exact name in its table of
/// IANA zone names, which fails on any other text.
#[verifier::external_body]
fn parse_zone(name: &str) -> (r: Option<Tz>)
    ensures
        r is Some <==> is_known_zone(name@),
{
    name.parse::<Tz>().ok()
}

/// A calendar registered for polling.
pub struct Calendar {
    pub id: Option<i32>,
    pub google_id: String,
    pub timezone: Tz,
    pub poll_interval: i32,
}

/// Why a stored row does not describe a calendar.
#[derive(Clone, Debug, PartialEq, Eq)]
pub enum CalendarRowError {
    MissingGoogleId,
    MissingTimezone,
    UnknownTimezone { name: String },
    MissingPollInterval,
}

impl Calendar {
    /// The calendar that a stored row describes. Every column but the id must be set,
    /// and the time zone must be one that chrono-tz knows; the first column that fails
    /// this, in the order google id, time zone, poll interval, gives the error.
    pub fn from_row(
        id: Option<i32>,
        google_id: Option<String>,
        timezone: Option<String>,
        poll_interval: Option<i32>,
    ) -> (r: Result<Calendar, CalendarRowError>)
        ensures
            google_id is None ==> r == Err::<Calendar, CalendarRowError>(
                CalendarRowError::MissingGoogleId,
            ),
            google_id is Some && timezone is None ==> r == Err::<Calendar, CalendarRowError>(
                CalendarRowError::MissingTimezone,
            ),
            timezone matches Some(zone) ==> (google_id is Some && !is_known_zone(zone@) ==> (
            r matches Err(CalendarRowError::UnknownTimezone { name }) && name@ == zone@)),
            timezone matches Some(zone) ==> (google_id is Some && is_known_zone(zone@)
                && poll_interval is None ==> r == Err::<Calendar, CalendarRowError>(
                CalendarRowError::MissingPollInterval,
            )),
            r matches Ok(c) ==> {
                &&& google_id matches Some(g) && c.google_id@ == g@
                &&& timezone matches Some(zone) && is_known_zone(zone@)
                &&& poll_interval == Some(c.poll_interval)
                &&& c.id == id
            },
    {
        let google_id = match google_id {
            Some(g) => g,
            None => return Err(CalendarRowError::MissingGoogleId),
        };
        let name = match timezone {
            Some(z) => z,
            None => return Err(CalendarRowError::MissingTimezone),
        };
        let zone = match parse_zone(name.as_str()) {
            Some(z) => z,
            None => return Err(CalendarRowError::UnknownTimezone { name }),
        };
        let poll_interval = match poll_interval {
            Some(p) => p,
            None => return Err(CalendarRowError::MissingPollInterval),
        };
        Ok(Calendar { id, google_id, timezone: zone, poll_interval })
    }
}

} // verus!
