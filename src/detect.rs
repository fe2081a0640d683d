//! Deciding whether a calendar's events changed since the last poll.

use crate::event::{event_models, same_event, Event, EventModel};
use vstd::prelude::*;

verus! {

/// How many of the first `n` positional pairs hold the same event.
pub open spec fn matches_up_to(cached: Seq<EventModel>, incoming: Seq<EventModel>, n: nat) -> nat
    decreases n,
{
    if n == 0 {
        0
    } else {
        let before = matches_up_to(cached, incoming, (n - 1) as nat);
        if same_event(cached[n - 1], incoming[n - 1]) {
            before + 1
        } else {
            before
        }
    }
}

/// Pairs the two lists by position (first with first, second with second, and so on,
/// up to the shorter one) and counts the pairs that hold the same event.
pub open spec fn matching_pairs(cached: Seq<EventModel>, incoming: Seq<EventModel>) -> nat {
    let n = if cached.len() <= incoming.len() {
        cached.len()
    } else {
        incoming.len()
    };
    matches_up_to(cached, incoming, n)
}

/// A poll changes nothing when the cache is not empty and every event of both lists
/// is matched by position.
pub open spec fn is_unchanged(cached: Seq<EventModel>, incoming: Seq<EventModel>) -> bool {
    &&& cached.len() > 0
    &&& matching_pairs(cached, incoming) == incoming.len()
    &&& matching_pairs(cached, incoming) == cached.len()
}

/// The verdict on one poll of a calendar.
pub enum Detection {
    Unchanged,
    /// The events changed: the cache is to become exactly these.
    Changed(Vec<Event>),
}

/// Compares a newly fetched list with the cached one for the same calendar.
pub fn detect(cached: &Vec<Event>, incoming: Vec<Event>) -> (r: Detection)
    ensures
        r is Unchanged <==> is_unchanged(event_models(cached@), event_models(incoming@)),
        r matches Detection::Changed(new_cache) ==> new_cache@ == incoming@,
{
    let ghost cm = event_models(cached@);
    let ghost im = event_models(incoming@);
    let n: usize = if cached.len() <= incoming.len() {
        cached.len()
    } else {
        incoming.len()
    };
    let mut count: usize = 0;
    let mut k: usize = 0;
    while k < n
        invariant
            n <= cached.len(),
            n <= incoming.len(),
            n == cached.len() || n == incoming.len(),
            k <= n,
            count <= k,
            count == matches_up_to(cm, im, k as nat),
            cm == event_models(cached@),
            im == event_models(incoming@),
        decreases n - k,
    {
        if cached[k].same_as(&incoming[k]) {
            count = count + 1;
        }
        k = k + 1;
    }
    if count == incoming.len() && count == cached.len() && cached.len() > 0 {
        Detection::Unchanged
    } else {
        Detection::Changed(incoming)
    }
}

proof fn lemma_matches_self(events: Seq<EventModel>, n: nat)
    requires
        n <= events.len(),
    ensures
        matches_up_to(events, events, n) == n,
    decreases n,
{
    if n > 0 {
        lemma_matches_self(events, (n - 1) as nat);
    }
}

/// Polling the same non-empty list twice reports no change.
pub proof fn lemma_identical_poll_unchanged(events: Seq<EventModel>)
    requires
        events.len() > 0,
    ensures
        is_unchanged(events, events),
{
    lemma_matches_self(events, events.len());
}

/// The first poll of a calendar, with nothing cached, always reports a change,
/// whatever it fetched, the empty list included.
pub proof fn lemma_cold_cache_changed(incoming: Seq<EventModel>)
    ensures
        !is_unchanged(Seq::empty(), incoming),
{
}

} // verus!
