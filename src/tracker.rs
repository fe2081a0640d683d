//! The consumer's state: for each calendar, the events last shown and the message
//! that shows them. Only the consumer reads or changes it.

use crate::detect::is_unchanged;
use crate::detect::{detect, Detection};
use crate::dispatch::Delivery;
use crate::event::{event_models, Event, EventModel};
use crate::render::{all_complete, render, renders, Notification, RenderError};
use crate::time::Date;
use vstd::prelude::*;

verus! {

/// One calendar's newly fetched events, as the poller hands them to the consumer.
#[derive(Clone, Debug)]
pub struct UpdateCalendarEvent {
    pub calendar_id: String,
    pub new_events: Vec<Event>,
}

/// What is kept for one calendar: the events shown and the message showing them.
pub struct RecordModel {
    pub events: Seq<EventModel>,
    pub message_id: Option<u64>,
}

#[derive(Debug)]
struct CalendarRecord {
    calendar_id: String,
    events: Vec<Event>,
    message_id: Option<u64>,
}

impl CalendarRecord {
    spec fn model(self) -> RecordModel {
        RecordModel { events: event_models(self.events@), message_id: self.message_id }
    }
}

spec fn records_map(records: Seq<CalendarRecord>) -> Map<Seq<char>, RecordModel>
    decreases records.len(),
{
    if records.len() == 0 {
        Map::empty()
    } else {
        records_map(records.drop_last()).insert(
            records.last().calendar_id@,
            records.last().model(),
        )
    }
}

spec fn distinct_ids(records: Seq<CalendarRecord>) -> bool {
    forall|i: int, j: int|
        0 <= i < j < records.len() ==> (#[trigger] records[i]).calendar_id@ != (#[trigger] records[
            j]).calendar_id@
}

/// The events shown for a calendar: none before its first notification.
pub open spec fn cached_of(state: Map<Seq<char>, RecordModel>, calendar_id: Seq<char>) -> Seq<
    EventModel,
> {
    if state.contains_key(calendar_id) {
        state[calendar_id].events
    } else {
        Seq::empty()
    }
}

/// The last message delivered for a calendar, if any.
pub open spec fn message_of(state: Map<Seq<char>, RecordModel>, calendar_id: Seq<char>) -> Option<
    u64,
> {
    if state.contains_key(calendar_id) {
        state[calendar_id].message_id
    } else {
        None
    }
}

/// What the consumer is to do with one update.
pub enum Plan {
    /// The events did not change: nothing is sent.
    Unchanged,
    /// The batch holds a malformed event: nothing is sent and nothing is kept.
    Rejected(RenderError),
    /// The notification is to be delivered, by editing `prior` where there is one.
    Deliver {
        calendar_id: String,
        new_events: Vec<Event>,
        notification: Notification,
        prior: Option<u64>,
    },
}

/// The events shown and the message sent for each calendar seen so far.
pub struct Tracker {
    records: Vec<CalendarRecord>,
}

impl View for Tracker {
    type V = Map<Seq<char>, RecordModel>;

    closed spec fn view(&self) -> Map<Seq<char>, RecordModel> {
        records_map(self.records@)
    }
}

proof fn lemma_lookup(records: Seq<CalendarRecord>, i: int)
    requires
        distinct_ids(records),
        0 <= i < records.len(),
    ensures
        records_map(records).contains_key(records[i].calendar_id@),
        records_map(records)[records[i].calendar_id@] == records[i].model(),
    decreases records.len(),
{
    if i < records.len() - 1 {
        lemma_lookup(records.drop_last(), i);
        assert(records.drop_last()[i] == records[i]);
        assert(records[i].calendar_id@ != records[records.len() - 1].calendar_id@);
    }
}

proof fn lemma_absent(records: Seq<CalendarRecord>, id: Seq<char>)
    requires
        forall|i: int| 0 <= i < records.len() ==> (#[trigger] records[i]).calendar_id@ != id,
    ensures
        !records_map(records).contains_key(id),
    decreases records.len(),
{
    if records.len() > 0 {
        lemma_absent(records.drop_last(), id);
    }
}

proof fn lemma_replace(records: Seq<CalendarRecord>, i: int, r: CalendarRecord)
    requires
        distinct_ids(records),
        0 <= i < records.len(),
        r.calendar_id@ == records[i].calendar_id@,
    ensures
        records_map(records.update(i, r)) == records_map(records).insert(r.calendar_id@, r.model()),
    decreases records.len(),
{
    let updated = records.update(i, r);
    if i == records.len() - 1 {
        assert(updated.drop_last() =~= records.drop_last());
        assert(records_map(updated) =~= records_map(records).insert(r.calendar_id@, r.model()));
    } else {
        lemma_replace(records.drop_last(), i, r);
        assert(updated.drop_last() =~= records.drop_last().update(i, r));
        assert(records[i].calendar_id@ != records.last().calendar_id@);
        assert(records_map(updated) =~= records_map(records).insert(r.calendar_id@, r.model()));
    }
}

fn find_record(records: &Vec<CalendarRecord>, calendar_id: &String) -> (r: Option<usize>)
    ensures
        r matches Some(i) ==> i < records.len() && records@[i as int].calendar_id@
            == calendar_id@,
        r is None ==> forall|i: int|
            0 <= i < records.len() ==> (#[trigger] records@[i]).calendar_id@ != calendar_id@,
{
    let mut i: usize = 0;
    while i < records.len()
        invariant
            i <= records.len(),
            forall|j: int| 0 <= j < i ==> (#[trigger] records@[j]).calendar_id@ != calendar_id@,
        decreases records.len() - i,
    {
        if records[i].calendar_id == *calendar_id {
            return Some(i);
        }
        i = i + 1;
    }
    None
}

impl Tracker {
    #[verifier::type_invariant]
    spec fn ids_distinct(self) -> bool {
        distinct_ids(self.records@)
    }

    /// A tracker that has seen no calendar: every cache is empty.
    pub fn new() -> (t: Tracker)
        ensures
            t@ == Map::<Seq<char>, RecordModel>::empty(),
    {
        let t = Tracker { records: Vec::new() };
        assert(t@ =~= Map::<Seq<char>, RecordModel>::empty());
        t
    }

    /// Decides what to do with one calendar's newly fetched events: nothing when they
    /// match the shown ones, a rejection when the batch is malformed, else a
    /// notification to deliver. The state itself is left as it is.
    pub fn plan(&self, update: UpdateCalendarEvent, today: &Date) -> (r: Plan)
        ensures
            ({
                let id = update.calendar_id@;
                let incoming = event_models(update.new_events@);
                let unchanged = is_unchanged(cached_of(self@, id), incoming);
                &&& r is Unchanged <==> unchanged
                &&& r is Rejected <==> !unchanged && !all_complete(incoming)
                &&& r matches Plan::Deliver { calendar_id, new_events, notification, prior } ==> {
                    &&& calendar_id@ == id
                    &&& new_events@ == update.new_events@
                    &&& renders(notification, incoming, today@.year)
                    &&& prior == message_of(self@, id)
                }
            }),
    {
        proof {
            use_type_invariant(self);
        }
        let found = find_record(&self.records, &update.calendar_id);
        let empty: Vec<Event> = Vec::new();
        let prior = match found {
            Some(i) => self.records[i].message_id,
            None => None,
        };
        let cached = match found {
            Some(i) => &self.records[i].events,
            None => &empty,
        };
        proof {
            match found {
                Some(i) => {
                    lemma_lookup(self.records@, i as int);
                },
                None => {
                    lemma_absent(self.records@, update.calendar_id@);
                    assert(event_models(empty@) =~= Seq::<EventModel>::empty());
                },
            }
        }
        let calendar_id = update.calendar_id;
        match detect(cached, update.new_events) {
            Detection::Unchanged => Plan::Unchanged,
            Detection::Changed(new_events) => match render(&new_events, today) {
                Ok(notification) => Plan::Deliver { calendar_id, new_events, notification, prior },
                Err(e) => Plan::Rejected(e),
            },
        }
    }

    /// Records how the delivery of a planned notification ended: once delivered, the
    /// calendar shows `new_events` in the delivered message; after a failed delivery
    /// nothing changes, so that the next poll tries again.
    pub fn settle(&mut self, calendar_id: String, new_events: Vec<Event>, outcome: Delivery)
        ensures
            outcome matches Delivery::Delivered { message_id } ==> final(self)@ == old(self)@.insert(
                calendar_id@,
                RecordModel { events: event_models(new_events@), message_id: Some(message_id) },
            ),
            !(outcome is Delivered) ==> final(self)@ == old(self)@,
    {
        if let Delivery::Delivered { message_id } = outcome {
            self.commit(calendar_id, new_events, message_id);
        }
    }

    fn commit(&mut self, calendar_id: String, new_events: Vec<Event>, message_id: u64)
        ensures
            final(self)@ == old(self)@.insert(
                calendar_id@,
                RecordModel { events: event_models(new_events@), message_id: Some(message_id) },
            ),
    {
        proof {
            use_type_invariant(&*self);
        }
        let found = find_record(&self.records, &calendar_id);
        let record = CalendarRecord { calendar_id, events: new_events, message_id: Some(message_id) };
        let ghost old_records = self.records@;
        let mut records = Vec::new();
        std::mem::swap(&mut records, &mut self.records);
        match found {
            Some(i) => {
                records.set(i, record);
                proof {
                    lemma_replace(old_records, i as int, record);
                    assert forall|a: int, b: int| 0 <= a < b < records.len() implies (
                    #[trigger] records@[a]).calendar_id@ != (#[trigger] records@[b]).calendar_id@ by {
                        assert(old_records[a].calendar_id@ != old_records[b].calendar_id@);
                    }
                }
            },
            None => {
                records.push(record);
                proof {
                    assert(records@.drop_last() =~= old_records);
                    assert forall|a: int, b: int| 0 <= a < b < records.len() implies (
                    #[trigger] records@[a]).calendar_id@ != (#[trigger] records@[b]).calendar_id@ by {
                        if b < old_records.len() {
                            assert(old_records[a].calendar_id@ != old_records[b].calendar_id@);
                        } else {
                            assert(records@[a] == old_records[a]);
                        }
                    }
                }
            },
        }
        self.records = records;
    }
}

/// Settling a delivered notification records the delivered message and the new events
/// for that calendar alone: every other calendar keeps its events and its message.
pub proof fn lemma_settle_touches_one_calendar(
    state: Map<Seq<char>, RecordModel>,
    calendar_id: Seq<char>,
    events: Seq<EventModel>,
    message_id: u64,
)
    ensures
        ({
            let after = state.insert(
                calendar_id,
                RecordModel { events, message_id: Some(message_id) },
            );
            &&& message_of(after, calendar_id) == Some(message_id)
            &&& cached_of(after, calendar_id) == events
            &&& forall|other: Seq<char>|
                other != calendar_id ==> message_of(after, other) == message_of(state, other)
                    && cached_of(after, other) == cached_of(state, other)
        }),
{
}

} // verus!
