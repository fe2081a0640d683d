//! One pass of the poller over the registered calendars: each calendar is fetched in
//! turn, and a failed fetch skips that calendar alone.

use crate::event::{event_models, Event, EventModel};
use crate::tracker::UpdateCalendarEvent;
use vstd::prelude::*;

verus! {

/// Why the events of a calendar could not be fetched.
#[derive(Clone, Debug)]
pub struct FetchError {
    pub reason: String,
}

/// The outcome of fetching one calendar: its id, and its events when the fetch worked.
pub type FetchOutcome = (Seq<char>, Option<Seq<EventModel>>);

/// The updates a sweep hands to the consumer, in order: one for each calendar whose
/// fetch worked, and none for the others.
pub open spec fn sweep_updates(outcomes: Seq<FetchOutcome>) -> Seq<(Seq<char>, Seq<EventModel>)>
    decreases outcomes.len(),
{
    if outcomes.len() == 0 {
        Seq::empty()
    } else {
        let before = sweep_updates(outcomes.drop_last());
        match outcomes.last().1 {
            Some(events) => before.push((outcomes.last().0, events)),
            None => before,
        }
    }
}

pub struct SweepModel {
    pub calendars: Seq<Seq<char>>,
    pub position: int,
    pub outcomes: Seq<FetchOutcome>,
}

/// A sweep in progress over a list of calendars.
pub struct Sweep {
    calendars: Vec<String>,
    position: usize,
    outcomes: Ghost<Seq<FetchOutcome>>,
}

impl View for Sweep {
    type V = SweepModel;

    closed spec fn view(&self) -> SweepModel {
        SweepModel {
            calendars: self.calendars@.map_values(|c: String| c@),
            position: self.position as int,
            outcomes: self.outcomes@,
        }
    }
}

impl Sweep {
    #[verifier::type_invariant]
    spec fn is_valid(self) -> bool {
        self.position <= self.calendars.len()
    }

    /// A sweep that has fetched nothing yet.
    pub fn new(calendars: Vec<String>) -> (r: Sweep)
        ensures
            r@.calendars == calendars@.map_values(|c: String| c@),
            r@.position == 0,
            r@.outcomes == Seq::<FetchOutcome>::empty(),
    {
        Sweep { calendars, position: 0, outcomes: Ghost(Seq::empty()) }
    }

    /// The calendar to fetch next, or `None` once every calendar has been fetched.
    pub fn next_calendar(&self) -> (r: Option<String>)
        ensures
            self@.position < self@.calendars.len() ==> (r matches Some(id) && id@
                == self@.calendars[self@.position]),
            self@.position >= self@.calendars.len() ==> r is None,
    {
        proof {
            use_type_invariant(self);
        }
        if self.position < self.calendars.len() {
            Some(self.calendars[self.position].clone())
        } else {
            None
        }
    }

    /// Takes the outcome of fetching the next calendar and moves on. A fetched list is
    /// handed over for that calendar; a failed fetch hands over nothing.
    pub fn record(&mut self, fetched: Result<Vec<Event>, FetchError>) -> (r: Option<
        UpdateCalendarEvent,
    >)
        ensures
            old(self)@.position >= old(self)@.calendars.len() ==> final(self)@ == old(self)@
                && r is None,
            old(self)@.position < old(self)@.calendars.len() ==> {
                let id = old(self)@.calendars[old(self)@.position];
                let outcome: FetchOutcome = (
                    id,
                    match fetched {
                        Ok(events) => Some(event_models(events@)),
                        Err(_) => None,
                    },
                );
                &&& final(self)@.calendars == old(self)@.calendars
                &&& final(self)@.position == old(self)@.position + 1
                &&& final(self)@.outcomes == old(self)@.outcomes.push(outcome)
                &&& match fetched {
                    Ok(events) => (r matches Some(u) && u.calendar_id@ == id && u.new_events@
                        == events@),
                    Err(_) => r is None,
                }
            },
    {
        proof {
            use_type_invariant(&*self);
        }
        if self.position >= self.calendars.len() {
            return None;
        }
        let calendar_id = self.calendars[self.position].clone();
        let ghost id = calendar_id@;
        let r = match fetched {
            Ok(new_events) => {
                proof {
                    self.outcomes@ = self.outcomes@.push((id, Some(event_models(new_events@))));
                }
                Some(UpdateCalendarEvent { calendar_id, new_events })
            },
            Err(_) => {
                proof {
                    self.outcomes@ = self.outcomes@.push((id, None));
                }
                None
            },
        };
        self.position = self.position + 1;
        r
    }
}

/// A calendar whose fetch failed hands nothing over, while every calendar of the same
/// sweep whose fetch worked is still handed over with the events fetched for it.
pub proof fn lemma_fetch_isolation(outcomes: Seq<FetchOutcome>, failed: Seq<char>, b: int)
    requires
        forall|i: int|
            0 <= i < outcomes.len() && (#[trigger] outcomes[i]).0 == failed ==> outcomes[i].1
                is None,
        0 <= b < outcomes.len(),
        outcomes[b].1 is Some,
    ensures
        forall|k: int|
            0 <= k < sweep_updates(outcomes).len() ==> (#[trigger] sweep_updates(outcomes)[k]).0
                != failed,
        sweep_updates(outcomes).contains((outcomes[b].0, outcomes[b].1->0)),
{
    lemma_failed_hands_nothing(outcomes, failed);
    lemma_success_handed_over(outcomes, b);
}

proof fn lemma_failed_hands_nothing(outcomes: Seq<FetchOutcome>, failed: Seq<char>)
    requires
        forall|i: int|
            0 <= i < outcomes.len() && (#[trigger] outcomes[i]).0 == failed ==> outcomes[i].1
                is None,
    ensures
        forall|k: int|
            0 <= k < sweep_updates(outcomes).len() ==> (#[trigger] sweep_updates(outcomes)[k]).0
                != failed,
    decreases outcomes.len(),
{
    if outcomes.len() > 0 {
        let rest = outcomes.drop_last();
        assert forall|i: int| 0 <= i < rest.len() && (#[trigger] rest[i]).0 == failed implies rest[i].1
            is None by {
            assert(rest[i] == outcomes[i]);
        }
        lemma_failed_hands_nothing(rest, failed);
        let before = sweep_updates(rest);
        let last = outcomes.len() - 1;
        assert(outcomes.last() == outcomes[last]);
        assert forall|k: int| 0 <= k < sweep_updates(outcomes).len() implies (
        #[trigger] sweep_updates(outcomes)[k]).0 != failed by {
            if k < before.len() {
                assert(sweep_updates(outcomes)[k] == before[k]);
            } else {
                assert(outcomes[last].0 == failed ==> outcomes[last].1 is None);
            }
        }
    }
}

proof fn lemma_success_handed_over(outcomes: Seq<FetchOutcome>, b: int)
    requires
        0 <= b < outcomes.len(),
        outcomes[b].1 is Some,
    ensures
        sweep_updates(outcomes).contains((outcomes[b].0, outcomes[b].1->0)),
    decreases outcomes.len(),
{
    let u = (outcomes[b].0, outcomes[b].1->0);
    let before = sweep_updates(outcomes.drop_last());
    if b == outcomes.len() - 1 {
        assert(before.push(u)[before.len() as int] == u);
    } else {
        assert(outcomes.drop_last()[b] == outcomes[b]);
        lemma_success_handed_over(outcomes.drop_last(), b);
        let k = choose|k: int| 0 <= k < before.len() && before[k] == u;
        match outcomes.last().1 {
            Some(events) => {
                assert(before.push((outcomes.last().0, events))[k] == u);
            },
            None => {},
        }
    }
}

} // verus!
