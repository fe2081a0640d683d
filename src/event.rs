//! Calendar events as the provider hands them over.

use crate::time::{Timestamp, TimestampModel};
use vstd::prelude::*;

verus! {

/// The mathematical value of an `Event`.
pub struct EventModel {
    pub id: Option<Seq<char>>,
    pub start: Option<TimestampModel>,
    pub end: Option<TimestampModel>,
    pub summary: Seq<char>,
}

/// One event of a calendar. The provider may leave out its identifier, and a
/// malformed event lacks its start or its end.
#[derive(Clone, Debug)]
pub struct Event {
    pub id: Option<String>,
    pub start: Option<Timestamp>,
    pub end: Option<Timestamp>,
    pub summary: String,
}

pub open spec fn timestamp_model(t: Option<Timestamp>) -> Option<TimestampModel> {
    match t {
        Some(t) => Some(t@),
        None => None,
    }
}

impl View for Event {
    type V = EventModel;

    open spec fn view(&self) -> EventModel {
        EventModel {
            id: match self.id {
                Some(s) => Some(s@),
                None => None,
            },
            start: timestamp_model(self.start),
            end: timestamp_model(self.end),
            summary: self.summary@,
        }
    }
}

pub open spec fn event_models(events: Seq<Event>) -> Seq<EventModel> {
    events.map_values(|e: Event| e@)
}

/// Two events are the same when they start at the same instant, end at the same
/// instant and carry the same summary; their identifiers play no part.
pub open spec fn same_event(a: EventModel, b: EventModel) -> bool {
    &&& a.start == b.start
    &&& a.end == b.end
    &&& a.summary == b.summary
}

/// An event that has both its start and its end.
pub open spec fn is_complete(e: EventModel) -> bool {
    e.start is Some && e.end is Some
}

fn same_instant(a: &Option<Timestamp>, b: &Option<Timestamp>) -> (r: bool)
    ensures
        r == (timestamp_model(*a) == timestamp_model(*b)),
{
    match (a, b) {
        (Some(x), Some(y)) => x.same_instant(y),
        (None, None) => true,
        _ => false,
    }
}

impl Event {
    /// Whether the two are the same event, in the sense of `same_event`.
    pub fn same_as(&self, other: &Event) -> (r: bool)
        ensures
            r == same_event(self@, other@),
    {
        same_instant(&self.start, &other.start) && same_instant(&self.end, &other.end)
            && self.summary == other.summary
    }
}

} // verus!
