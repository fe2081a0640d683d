//! Turning a calendar's events into a notification: one section per pair of start
//! and end days, in chronological order.

use crate::event::{event_models, is_complete, Event, EventModel};
use crate::text::{decimal, push_decimal, push_zero_padded, zero_padded};
use crate::time::{date_before, weekday_of, Date, DateModel, Timestamp, TimestampModel};
use vstd::prelude::*;

verus! {

pub open spec fn weekday_name(weekday: int) -> Seq<char> {
    if weekday == 0 {
        "Monday"@
    } else if weekday == 1 {
        "Tuesday"@
    } else if weekday == 2 {
        "Wednesday"@
    } else if weekday == 3 {
        "Thursday"@
    } else if weekday == 4 {
        "Friday"@
    } else if weekday == 5 {
        "Saturday"@
    } else {
        "Sunday"@
    }
}

pub open spec fn month_name(month: int) -> Seq<char> {
    if month == 1 {
        "January"@
    } else if month == 2 {
        "February"@
    } else if month == 3 {
        "March"@
    } else if month == 4 {
        "April"@
    } else if month == 5 {
        "May"@
    } else if month == 6 {
        "June"@
    } else if month == 7 {
        "July"@
    } else if month == 8 {
        "August"@
    } else if month == 9 {
        "September"@
    } else if month == 10 {
        "October"@
    } else if month == 11 {
        "November"@
    } else {
        "December"@
    }
}

/// A year as chrono's `%Y` writes it: four digits from 0 to 9999, and a sign before
/// at least four digits outside that range.
pub open spec fn year_text(year: int) -> Seq<char> {
    if 0 <= year <= 9999 {
        zero_padded(decimal(year as nat), 4)
    } else if year < 0 {
        seq!['-'] + zero_padded(decimal((-year) as nat), 4)
    } else {
        seq!['+'] + zero_padded(decimal(year as nat), 4)
    }
}

/// `YYYY-MM-DD`.
pub open spec fn iso_date_text(d: DateModel) -> Seq<char> {
    year_text(d.year) + seq!['-'] + zero_padded(decimal(d.month as nat), 2) + seq!['-']
        + zero_padded(decimal(d.day as nat), 2)
}

/// The weekday, the day of the month and the month's name, as in `Friday — 3 May`.
pub open spec fn long_date_text(d: DateModel) -> Seq<char> {
    weekday_name(weekday_of(d.year, d.month, d.day)) + " — "@ + decimal(d.day as nat) + " "@
        + month_name(d.month)
}

/// `HH:MM` on the 24-hour clock.
pub open spec fn clock_text(t: TimestampModel) -> Seq<char> {
    zero_padded(decimal(t.hour as nat), 2) + ":"@ + zero_padded(decimal(t.minute as nat), 2)
}

/// The heading of the section for events from day `start` to day `end`. Days are
/// written in full only when both fall in the current year.
pub open spec fn heading_text(start: DateModel, end: DateModel, today_year: int) -> Seq<char> {
    let absolute = start.year != end.year || start.year != today_year;
    let first = if absolute {
        iso_date_text(start)
    } else {
        long_date_text(start)
    };
    if start == end {
        first
    } else {
        first + " // "@ + if absolute {
            iso_date_text(end)
        } else {
            long_date_text(end)
        }
    }
}

/// One line of a section's body: `HH:MM - HH:MM | summary` in fixed-width type.
pub open spec fn line_text(e: EventModel) -> Seq<char> {
    "```"@ + clock_text(e.start->0) + " - "@ + clock_text(e.end->0) + " | "@ + e.summary
        + "```\n"@
}

/// The lines of the events, in their order.
pub open spec fn body_text(events: Seq<EventModel>) -> Seq<char>
    decreases events.len(),
{
    if events.len() == 0 {
        Seq::empty()
    } else {
        body_text(events.drop_last()) + line_text(events.last())
    }
}

/// The days on which an event starts and ends: the key it is grouped by.
pub open spec fn event_key(e: EventModel) -> (DateModel, DateModel) {
    (e.start->0.date, e.end->0.date)
}

/// Keys are ordered by start day, then by end day.
pub open spec fn key_before(a: (DateModel, DateModel), b: (DateModel, DateModel)) -> bool {
    date_before(a.0, b.0) || (a.0 == b.0 && date_before(a.1, b.1))
}

/// The events grouped under `key`, in their order.
pub open spec fn events_with_key(events: Seq<EventModel>, key: (DateModel, DateModel)) -> Seq<
    EventModel,
> {
    events.filter(|e: EventModel| event_key(e) == key)
}

/// One group of events: those that start on `start_date` and end on `end_date`.
#[derive(Clone, Debug)]
pub struct Section {
    pub start_date: Date,
    pub end_date: Date,
    pub heading: String,
    pub body: String,
}

pub open spec fn section_key(s: Section) -> (DateModel, DateModel) {
    (s.start_date@, s.end_date@)
}

/// A rendered notification: a title and its sections.
#[derive(Clone, Debug)]
pub struct Notification {
    pub title: String,
    pub sections: Vec<Section>,
}

#[derive(Clone, Copy, Debug, PartialEq, Eq)]
pub enum RenderError {
    /// The event at this position lacks its start or its end.
    MissingTime { index: usize },
}

pub open spec fn section_keys(sections: Seq<Section>) -> Seq<(DateModel, DateModel)> {
    sections.map_values(|s: Section| section_key(s))
}

/// `n` renders `events` (all complete) in a year whose number is `today_year`: one
/// section for each distinct key, in ascending key order, each headed by its days and
/// listing its events in their order.
pub open spec fn renders(n: Notification, events: Seq<EventModel>, today_year: int) -> bool {
    let sections = n.sections@;
    &&& n.title@ == "Events"@
    &&& ascending(section_keys(sections))
    &&& keys_of_prefix(section_keys(sections), events, events.len() as int)
    &&& forall|j: int|
        0 <= j < sections.len() ==> {
            let s = #[trigger] sections[j];
            &&& s.heading@ == heading_text(s.start_date@, s.end_date@, today_year)
            &&& s.body@ == body_text(events_with_key(events, section_key(s)))
        }
}

fn weekday_str(weekday: u8) -> (r: &'static str)
    ensures
        r@ == weekday_name(weekday as int),
{
    if weekday == 0 {
        "Monday"
    } else if weekday == 1 {
        "Tuesday"
    } else if weekday == 2 {
        "Wednesday"
    } else if weekday == 3 {
        "Thursday"
    } else if weekday == 4 {
        "Friday"
    } else if weekday == 5 {
        "Saturday"
    } else {
        "Sunday"
    }
}

fn month_str(month: u8) -> (r: &'static str)
    ensures
        r@ == month_name(month as int),
{
    if month == 1 {
        "January"
    } else if month == 2 {
        "February"
    } else if month == 3 {
        "March"
    } else if month == 4 {
        "April"
    } else if month == 5 {
        "May"
    } else if month == 6 {
        "June"
    } else if month == 7 {
        "July"
    } else if month == 8 {
        "August"
    } else if month == 9 {
        "September"
    } else if month == 10 {
        "October"
    } else if month == 11 {
        "November"
    } else {
        "December"
    }
}

fn push_year(out: &mut String, year: i32)
    ensures
        final(out)@ == old(out)@ + year_text(year as int),
{
    let y = year as i64;
    if 0 <= y && y <= 9999 {
        push_zero_padded(out, y as u64, 4);
    } else if y < 0 {
        out.append("-");
        proof {
            reveal_strlit("-");
        }
        push_zero_padded(out, (-y) as u64, 4);
    } else {
        out.append("+");
        proof {
            reveal_strlit("+");
        }
        push_zero_padded(out, y as u64, 4);
    }
    assert(final(out)@ =~= old(out)@ + year_text(year as int));
}

fn push_iso_date(out: &mut String, d: &Date)
    ensures
        final(out)@ == old(out)@ + iso_date_text(d@),
{
    proof {
        reveal_strlit("-");
    }
    push_year(out, d.year());
    out.append("-");
    push_zero_padded(out, d.month() as u64, 2);
    out.append("-");
    push_zero_padded(out, d.day() as u64, 2);
    assert(final(out)@ =~= old(out)@ + iso_date_text(d@));
}

fn push_long_date(out: &mut String, d: &Date)
    ensures
        final(out)@ == old(out)@ + long_date_text(d@),
{
    out.append(weekday_str(d.weekday()));
    out.append(" — ");
    push_decimal(out, d.day() as u64);
    out.append(" ");
    out.append(month_str(d.month()));
    assert(final(out)@ =~= old(out)@ + long_date_text(d@));
}

fn push_clock(out: &mut String, t: &Timestamp)
    ensures
        final(out)@ == old(out)@ + clock_text(t@),
{
    push_zero_padded(out, t.hour() as u64, 2);
    out.append(":");
    push_zero_padded(out, t.minute() as u64, 2);
    assert(final(out)@ =~= old(out)@ + clock_text(t@));
}

fn push_heading(out: &mut String, start: &Date, end: &Date, today_year: i32)
    ensures
        final(out)@ == old(out)@ + heading_text(start@, end@, today_year as int),
{
    let absolute = start.year() != end.year() || start.year() != today_year;
    if absolute {
        push_iso_date(out, start);
    } else {
        push_long_date(out, start);
    }
    if !start.equals(end) {
        out.append(" // ");
        if absolute {
            push_iso_date(out, end);
        } else {
            push_long_date(out, end);
        }
    }
    assert(final(out)@ =~= old(out)@ + heading_text(start@, end@, today_year as int));
}

fn push_line(out: &mut String, e: &Event)
    requires
        is_complete(e@),
    ensures
        final(out)@ == old(out)@ + line_text(e@),
{
    let start = e.start.unwrap();
    let end = e.end.unwrap();
    out.append("```");
    push_clock(out, &start);
    out.append(" - ");
    push_clock(out, &end);
    out.append(" | ");
    out.append(e.summary.as_str());
    out.append("```\n");
    assert(final(out)@ =~= old(out)@ + line_text(e@));
}

pub open spec fn pair_key(p: (Date, Date)) -> (DateModel, DateModel) {
    (p.0@, p.1@)
}

pub open spec fn all_complete(events: Seq<EventModel>) -> bool {
    forall|i: int| 0 <= i < events.len() ==> is_complete(#[trigger] events[i])
}

fn key_less(a: &(Date, Date), start: &Date, end: &Date) -> (r: bool)
    ensures
        r == key_before(pair_key(*a), (start@, end@)),
{
    a.0.is_before(start) || (a.0.equals(start) && a.1.is_before(end))
}

pub open spec fn key_models(keys: Seq<(Date, Date)>) -> Seq<(DateModel, DateModel)> {
    keys.map_values(|p: (Date, Date)| pair_key(p))
}

pub open spec fn ascending(kv: Seq<(DateModel, DateModel)>) -> bool {
    forall|i: int, j: int| 0 <= i < j < kv.len() ==> key_before(#[trigger] kv[i], #[trigger] kv[j])
}

pub open spec fn lists_key(kv: Seq<(DateModel, DateModel)>, key: (DateModel, DateModel)) -> bool {
    exists|j: int| 0 <= j < kv.len() && kv[j] == key
}

/// Every key of the first `n` events is listed, and every listed key is one of theirs.
pub open spec fn keys_of_prefix(
    kv: Seq<(DateModel, DateModel)>,
    events: Seq<EventModel>,
    n: int,
) -> bool {
    &&& forall|m: int| 0 <= m < n ==> lists_key(kv, event_key(#[trigger] events[m]))
    &&& forall|j: int|
        0 <= j < kv.len() ==> exists|m: int|
            0 <= m < n && event_key(#[trigger] events[m]) == #[trigger] kv[j]
}

proof fn lemma_key_order(a: (DateModel, DateModel), b: (DateModel, DateModel), c: (
    DateModel,
    DateModel,
))
    ensures
        key_before(a, b) && key_before(b, c) ==> key_before(a, c),
        !key_before(a, b) && a != b ==> key_before(b, a),
        !(key_before(a, b) && key_before(b, a)),
        !key_before(a, a),
{
}

proof fn lemma_insert_ascending(kv: Seq<(DateModel, DateModel)>, p: int, key: (
    DateModel,
    DateModel,
))
    requires
        ascending(kv),
        0 <= p <= kv.len(),
        forall|q: int| 0 <= q < p ==> key_before(#[trigger] kv[q], key),
        p < kv.len() ==> key_before(key, kv[p]),
    ensures
        ascending(kv.insert(p, key)),
{
    let nk = kv.insert(p, key);
    assert forall|i: int, j: int| 0 <= i < j < nk.len() implies key_before(
        #[trigger] nk[i],
        #[trigger] nk[j],
    ) by {
        if j < p {
            assert(key_before(kv[i], kv[j]));
        } else if j == p {
            assert(key_before(kv[i], key));
        } else if i < p {
            assert(key_before(kv[i], key));
            if j - 1 > p {
                assert(key_before(kv[p], kv[j - 1]));
                lemma_key_order(kv[i], key, kv[p]);
                lemma_key_order(key, kv[p], kv[j - 1]);
            }
            lemma_key_order(kv[i], key, kv[j - 1]);
        } else if i == p {
            if j - 1 > p {
                assert(key_before(kv[p], kv[j - 1]));
                lemma_key_order(key, kv[p], kv[j - 1]);
            }
        } else {
            assert(key_before(kv[i - 1], kv[j - 1]));
        }
    }
}

proof fn lemma_insert_lists(kv: Seq<(DateModel, DateModel)>, p: int, key: (DateModel, DateModel))
    requires
        0 <= p <= kv.len(),
    ensures
        lists_key(kv.insert(p, key), key),
        forall|x: (DateModel, DateModel)|
            lists_key(kv, x) ==> #[trigger] lists_key(kv.insert(p, key), x),
        forall|j: int|
            0 <= j < kv.len() + 1 ==> #[trigger] kv.insert(p, key)[j] == key || lists_key(
                kv,
                kv.insert(p, key)[j],
            ),
{
    let nk = kv.insert(p, key);
    assert(nk[p] == key);
    assert forall|x: (DateModel, DateModel)| lists_key(kv, x) implies #[trigger] lists_key(nk, x) by {
        let j = choose|j: int| 0 <= j < kv.len() && kv[j] == x;
        if j < p {
            assert(nk[j] == x);
        } else {
            assert(nk[j + 1] == x);
        }
    }
    assert forall|j: int| 0 <= j < kv.len() + 1 implies #[trigger] nk[j] == key || lists_key(
        kv,
        nk[j],
    ) by {
        if j < p {
            assert(kv[j] == nk[j]);
        } else if j > p {
            assert(kv[j - 1] == nk[j]);
        }
    }
}

/// The distinct keys of the events, in ascending order.
fn group_keys(events: &Vec<Event>) -> (keys: Vec<(Date, Date)>)
    requires
        all_complete(event_models(events@)),
    ensures
        ascending(key_models(keys@)),
        keys_of_prefix(key_models(keys@), event_models(events@), events.len() as int),
{
    let ghost models = event_models(events@);
    let mut keys: Vec<(Date, Date)> = Vec::new();
    let mut k: usize = 0;
    assert(key_models(keys@) =~= Seq::empty());
    while k < events.len()
        invariant
            k <= events.len(),
            models == event_models(events@),
            all_complete(models),
            ascending(key_models(keys@)),
            keys_of_prefix(key_models(keys@), models, k as int),
        decreases events.len() - k,
    {
        let ghost kv = key_models(keys@);
        assert(is_complete(models[k as int]));
        let start = events[k].start.unwrap().date();
        let end = events[k].end.unwrap().date();
        let ghost key = (start@, end@);
        assert(key == event_key(models[k as int]));
        let mut p: usize = 0;
        while p < keys.len() && key_less(&keys[p], &start, &end)
            invariant
                p <= keys.len(),
                kv == key_models(keys@),
                forall|q: int| 0 <= q < p ==> key_before(#[trigger] kv[q], key),
                key == (start@, end@),
            decreases keys.len() - p,
        {
            p = p + 1;
        }
        let present = p < keys.len() && keys[p].0.equals(&start) && keys[p].1.equals(&end);
        if !present {
            keys.insert(p, (start, end));
            proof {
                assert(key_models(keys@) =~= kv.insert(p as int, key));
                if p < kv.len() {
                    lemma_key_order(kv[p as int], key, key);
                }
                lemma_insert_ascending(kv, p as int, key);
                lemma_insert_lists(kv, p as int, key);
                let nk = kv.insert(p as int, key);
                assert forall|m: int| 0 <= m < k + 1 implies lists_key(
                    nk,
                    event_key(#[trigger] models[m]),
                ) by {
                    if m < k {
                        assert(lists_key(kv, event_key(models[m])));
                    }
                }
                assert forall|j: int| 0 <= j < nk.len() implies exists|m: int|
                    0 <= m < k + 1 && event_key(#[trigger] models[m]) == #[trigger] nk[j] by {
                    if nk[j] == key {
                        assert(event_key(models[k as int]) == nk[j]);
                    } else {
                        let i = choose|i: int| 0 <= i < kv.len() && kv[i] == nk[j];
                        let m = choose|m: int| 0 <= m < k && event_key(#[trigger] models[m]) == kv[i];
                        assert(event_key(models[m]) == nk[j]);
                    }
                }
            }
        } else {
            proof {
                assert(kv[p as int] == key);
                assert forall|m: int| 0 <= m < k + 1 implies lists_key(
                    kv,
                    event_key(#[trigger] models[m]),
                ) by {
                    if m == k {
                        assert(kv[p as int] == event_key(models[m]));
                    }
                }
                assert forall|j: int| 0 <= j < kv.len() implies exists|m: int|
                    0 <= m < k + 1 && event_key(#[trigger] models[m]) == #[trigger] kv[j] by {
                    let m = choose|m: int| 0 <= m < k && event_key(#[trigger] models[m]) == kv[j];
                }
            }
        }
        k = k + 1;
    }
    keys
}

/// The body of the section for the events that start on `start` and end on `end`.
fn section_body(events: &Vec<Event>, start: &Date, end: &Date) -> (body: String)
    requires
        all_complete(event_models(events@)),
    ensures
        body@ == body_text(events_with_key(event_models(events@), (start@, end@))),
{
    let ghost models = event_models(events@);
    let ghost key = (start@, end@);
    let mut body = String::new();
    let mut i: usize = 0;
    while i < events.len()
        invariant
            i <= events.len(),
            models == event_models(events@),
            all_complete(models),
            key == (start@, end@),
            body@ == body_text(events_with_key(models.take(i as int), key)),
        decreases events.len() - i,
    {
        let e = &events[i];
        assert(is_complete(models[i as int]));
        let s = e.start.unwrap().date();
        let t = e.end.unwrap().date();
        let ghost before = events_with_key(models.take(i as int), key);
        let same = s.equals(start) && t.equals(end);
        if same {
            push_line(&mut body, e);
        }
        proof {
            let next = models.take(i + 1);
            assert(next.drop_last() =~= models.take(i as int));
            assert(next.last() == models[i as int]);
            reveal(Seq::filter);
            if same {
                assert(events_with_key(next, key) == before.push(models[i as int]));
                assert(before.push(models[i as int]).drop_last() =~= before);
            } else {
                assert(events_with_key(next, key) == before);
            }
        }
        i = i + 1;
    }
    assert(models.take(events.len() as int) =~= models);
    body
}

/// Renders the events as a notification titled "Events", for a current day `today`.
/// Fails on the first event that lacks its start or its end, so that a malformed
/// batch is never rendered in part.
pub fn render(events: &Vec<Event>, today: &Date) -> (r: Result<Notification, RenderError>)
    ensures
        r is Ok <==> all_complete(event_models(events@)),
        r matches Err(RenderError::MissingTime { index }) ==> {
            &&& index < events.len()
            &&& !is_complete(event_models(events@)[index as int])
            &&& forall|i: int|
                0 <= i < index ==> is_complete(#[trigger] event_models(events@)[i])
        },
        r matches Ok(n) ==> renders(n, event_models(events@), today@.year),
{
    let ghost models = event_models(events@);
    let mut i: usize = 0;
    while i < events.len()
        invariant
            i <= events.len(),
            models == event_models(events@),
            forall|j: int| 0 <= j < i ==> is_complete(#[trigger] models[j]),
        decreases events.len() - i,
    {
        if events[i].start.is_none() || events[i].end.is_none() {
            assert(!is_complete(models[i as int]));
            return Err(RenderError::MissingTime { index: i });
        }
        i = i + 1;
    }
    let keys = group_keys(events);
    let mut sections: Vec<Section> = Vec::new();
    let mut j: usize = 0;
    while j < keys.len()
        invariant
            j <= keys.len(),
            sections.len() == j,
            models == event_models(events@),
            all_complete(models),
            forall|m: int|
                0 <= m < j ==> {
                    let s = #[trigger] sections@[m];
                    &&& section_key(s) == key_models(keys@)[m]
                    &&& s.heading@ == heading_text(s.start_date@, s.end_date@, today@.year)
                    &&& s.body@ == body_text(events_with_key(models, section_key(s)))
                },
        decreases keys.len() - j,
    {
        let start = keys[j].0;
        let end = keys[j].1;
        let mut heading = String::new();
        push_heading(&mut heading, &start, &end, today.year());
        let body = section_body(events, &start, &end);
        sections.push(Section { start_date: start, end_date: end, heading, body });
        j = j + 1;
    }
    let n = Notification { title: String::from_str("Events"), sections };
    assert(section_keys(n.sections@) =~= key_models(keys@));
    Ok(n)
}

/// An event group that spans two years is headed by both days as ISO dates, whatever
/// the current year.
pub proof fn lemma_cross_year_heading(start: DateModel, end: DateModel, today_year: int)
    requires
        start.year != end.year,
    ensures
        heading_text(start, end, today_year) == iso_date_text(start) + " // "@ + iso_date_text(end),
{
}

/// Rendering no events succeeds and gives a notification without sections.
pub proof fn lemma_empty_renders_no_section(n: Notification, today_year: int)
    requires
        renders(n, Seq::empty(), today_year),
    ensures
        all_complete(Seq::<EventModel>::empty()),
        n.sections.len() == 0,
{
    let kv = section_keys(n.sections@);
    if kv.len() > 0 {
        assert(kv[0] == section_key(n.sections@[0]));
    }
}

} // verus!
