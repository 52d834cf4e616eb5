//! Events of a resource: rows, their order, and the text shown in the detail pane.
use vstd::prelude::*;

use crate::resources::{age_text, format_age_at};
use crate::rows::{text_or, text_or_empty};
use crate::store::{compare_text, lemma_text_lt_asymmetric, lemma_text_lt_total, lemma_text_lt_transitive, text_lt};
use crate::filters::{lemma_filter_insert, lemma_filter_none, lemma_filter_single};
use crate::text::{chars_of, join_texts, join_with, owned, texts};

verus! {

#[derive(Debug, Clone)]
pub struct EventRow {
    pub type_: String,
    pub reason: String,
    pub message: String,
    pub age: String,
}

/// What the event list reads from an event.
#[derive(Debug, Clone)]
pub struct EventInfo {
    pub type_: Option<String>,
    pub reason: Option<String>,
    pub message: Option<String>,
    /// Last time the event was seen (Unix seconds).
    pub last_timestamp: Option<i64>,
}

/// The texts of an event row: type, reason, message, age.
pub open spec fn event_view(e: EventRow) -> (Seq<char>, Seq<char>, Seq<char>, Seq<char>) {
    (e.type_@, e.reason@, e.message@, e.age@)
}

pub open spec fn events_view(v: Seq<EventRow>) -> Seq<(Seq<char>, Seq<char>, Seq<char>, Seq<char>)> {
    v.map_values(|e: EventRow| event_view(e))
}

/// The row of one event: `Normal` when it has no type, `-` when it has no
/// reason, an empty message when it has none.
pub open spec fn event_row_of(e: EventInfo, now: i64) -> (Seq<char>, Seq<char>, Seq<char>, Seq<char>) {
    (
        text_or(e.type_, "Normal"@),
        text_or(e.reason, "-"@),
        text_or_empty(e.message),
        age_text(e.last_timestamp, now),
    )
}

fn text_or_exec(o: &Option<String>, d: &str) -> (r: String)
    ensures
        r@ == text_or(*o, d@),
{
    match o {
        Some(s) => owned(s.as_str()),
        None => owned(d),
    }
}

/// The row of one event, its age measured at `now`.
pub fn event_row(e: &EventInfo, now: i64) -> (r: EventRow)
    ensures
        event_view(r) == event_row_of(*e, now),
{
    EventRow {
        type_: text_or_exec(&e.type_, "Normal"),
        reason: text_or_exec(&e.reason, "-"),
        message: match &e.message {
            Some(m) => owned(m.as_str()),
            None => String::new(),
        },
        age: format_age_at(e.last_timestamp, now),
    }
}

/// No row's age text sorts after that of a row before it (newest-looking
/// first, comparing the age texts as strings).
pub open spec fn ages_descending(v: Seq<EventRow>) -> bool {
    forall|i: int, j: int| 0 <= i < j < v.len() ==> !text_lt(#[trigger] v[i].age@, #[trigger] v[j].age@)
}

/// Whether an event row's texts carry this age text.
pub open spec fn has_age(age: Seq<char>) -> spec_fn((Seq<char>, Seq<char>, Seq<char>, Seq<char>)) -> bool {
    |e: (Seq<char>, Seq<char>, Seq<char>, Seq<char>)| e.3 == age
}

/// The rows with this age text, in their order.
pub open spec fn with_age(v: Seq<(Seq<char>, Seq<char>, Seq<char>, Seq<char>)>, age: Seq<char>) -> Seq<
    (Seq<char>, Seq<char>, Seq<char>, Seq<char>),
> {
    v.filter(has_age(age))
}

/// Inserts `x` after every row whose age text is not before its own, so
/// rows with equal ages keep their order.
fn insert_by_age(v: &mut Vec<EventRow>, x: EventRow)
    requires
        ages_descending(old(v)@),
    ensures
        ages_descending(final(v)@),
        events_view(final(v)@).to_multiset() == events_view(old(v)@).to_multiset().insert(
            event_view(x),
        ),
        forall|age: Seq<char>|
            #[trigger] with_age(events_view(final(v)@), age) == with_age(
                events_view(old(v)@).push(event_view(x)),
                age,
            ),
{
    let ghost xa = x.age@;
    let xs = chars_of(x.age.as_str());
    let mut pos: usize = v.len();
    let mut stop = false;
    while pos > 0 && !stop
        invariant
            pos <= v@.len(),
            *v == *old(v),
            xs@ == xa,
            ages_descending(v@),
            forall|k: int| pos <= k < v@.len() ==> text_lt(#[trigger] v@[k].age@, xa),
            stop ==> pos > 0 && !text_lt(v@[pos - 1].age@, xa),
        decreases pos + (if stop {
            0int
        } else {
            1int
        }),
    {
        let ys = chars_of(v[pos - 1].age.as_str());
        if compare_text(&ys, &xs) < 0 {
            pos = pos - 1;
        } else {
            stop = true;
        }
    }
    let ghost before = v@;
    let ghost xe = x;
    v.insert(pos, x);
    proof {
        assert(events_view(v@) =~= events_view(before).insert(pos as int, event_view(xe)));
        vstd::seq_lib::to_multiset_insert(events_view(before), pos as int, event_view(xe));
        let sb = events_view(before);
        let ex = event_view(xe);
        assert forall|age: Seq<char>| #[trigger]
            with_age(events_view(v@), age) == with_age(sb.push(ex), age) by {
            let p = has_age(age);
            lemma_filter_insert(sb, pos as int, ex, p);
            lemma_filter_single(ex, p);
            if p(ex) {
                assert forall|k: int| 0 <= k < sb.skip(pos as int).len() implies !p(
                    #[trigger] sb.skip(pos as int)[k],
                ) by {
                    assert(sb.skip(pos as int)[k] == event_view(before[pos + k]));
                    assert(text_lt(before[pos + k].age@, xa));
                    crate::store::lemma_text_lt_irreflexive(xa);
                }
                lemma_filter_none(sb.skip(pos as int), p);
            }
            assert(with_age(events_view(v@), age) =~= with_age(sb.push(ex), age));
        }
        assert forall|i: int, j: int| 0 <= i < j < v@.len() implies !text_lt(
            #[trigger] v@[i].age@,
            #[trigger] v@[j].age@,
        ) by {
            if i < pos && j == pos {
                // before[pos - 1] is not before x, nor is any earlier row.
                lemma_text_lt_total(before[pos - 1].age@, xa);
                if text_lt(before[i].age@, xa) && i < pos - 1 {
                    assert(!text_lt(before[i].age@, before[pos - 1].age@));
                    lemma_text_lt_total(before[i].age@, before[pos - 1].age@);
                    if text_lt(before[pos - 1].age@, before[i].age@) {
                        lemma_text_lt_transitive(before[pos - 1].age@, before[i].age@, xa);
                    }
                }
            } else if i == pos && j > pos {
                assert(v@[j] == before[j - 1]);
                lemma_text_lt_asymmetric(before[j - 1].age@, xa);
            } else if i < pos && j > pos {
                assert(v@[i] == before[i]);
                assert(v@[j] == before[j - 1]);
            } else if j < pos {
                assert(v@[i] == before[i]);
                assert(v@[j] == before[j]);
            } else {
                assert(v@[i] == before[i - 1]);
                assert(v@[j] == before[j - 1]);
            }
        }
    }
}

fn copy_event(e: &EventRow) -> (r: EventRow)
    ensures
        event_view(r) == event_view(*e),
{
    EventRow {
        type_: owned(e.type_.as_str()),
        reason: owned(e.reason.as_str()),
        message: owned(e.message.as_str()),
        age: owned(e.age.as_str()),
    }
}

/// Rows ordered by age text, descending; rows with equal ages keep their
/// order.
pub fn sort_events_by_age(rows: &[EventRow]) -> (r: Vec<EventRow>)
    ensures
        ages_descending(r@),
        events_view(r@).to_multiset() == events_view(rows@).to_multiset(),
        forall|age: Seq<char>| #[trigger]
            with_age(events_view(r@), age) == with_age(events_view(rows@), age),
{
    let mut out: Vec<EventRow> = Vec::new();
    let mut i: usize = 0;
    assert(events_view(out@) =~= events_view(rows@.take(0)));
    while i < rows.len()
        invariant
            i <= rows.len(),
            ages_descending(out@),
            events_view(out@).to_multiset() == events_view(rows@.take(i as int)).to_multiset(),
            forall|age: Seq<char>| #[trigger]
                with_age(events_view(out@), age) == with_age(events_view(rows@.take(i as int)), age),
        decreases rows.len() - i,
    {
        let e = copy_event(&rows[i]);
        proof {
            assert(events_view(rows@.take(i + 1)) =~= events_view(rows@.take(i as int)).push(
                event_view(rows@[i as int]),
            ));
            vstd::seq_lib::to_multiset_build(
                events_view(rows@.take(i as int)),
                event_view(rows@[i as int]),
            );
        }
        let ghost prev = events_view(out@);
        insert_by_age(&mut out, e);
        proof {
            let done = events_view(rows@.take(i as int));
            let ev = event_view(rows@[i as int]);
            assert forall|age: Seq<char>| #[trigger]
                with_age(events_view(out@), age) == with_age(events_view(rows@.take(i + 1)), age) by {
                prev.lemma_filter_push(ev, has_age(age));
                done.lemma_filter_push(ev, has_age(age));
                assert(with_age(prev, age) == with_age(done, age));
                assert(events_view(rows@.take(i + 1)) == done.push(ev));
                assert(with_age(events_view(out@), age) == with_age(prev.push(ev), age));
            }
        }
        i = i + 1;
    }
    assert(rows@.take(rows.len() as int) =~= rows@);
    out
}

/// The event rows of a resource, ages measured at `now`, ordered by age
/// text descending.
pub fn event_rows(events: &[EventInfo], now: i64) -> (r: Vec<EventRow>)
    ensures
        ages_descending(r@),
        events_view(r@).to_multiset() == events@.map_values(|e: EventInfo| event_row_of(e, now)).to_multiset(),
        forall|age: Seq<char>| #[trigger]
            with_age(events_view(r@), age) == with_age(
                events@.map_values(|e: EventInfo| event_row_of(e, now)),
                age,
            ),
{
    let mut rows: Vec<EventRow> = Vec::new();
    let mut i: usize = 0;
    while i < events.len()
        invariant
            i <= events.len(),
            events_view(rows@) == events@.take(i as int).map_values(|e: EventInfo| event_row_of(e, now)),
        decreases events.len() - i,
    {
        let row = event_row(&events[i], now);
        let ghost before = events_view(rows@);
        rows.push(row);
        assert(events_view(rows@) =~= before.push(event_view(row)));
        assert(events@.take(i + 1).map_values(|e: EventInfo| event_row_of(e, now)) =~= events@.take(
            i as int,
        ).map_values(|e: EventInfo| event_row_of(e, now)).push(event_row_of(events@[i as int], now)));
        assert(events_view(rows@) =~= events@.take(i + 1).map_values(|e: EventInfo| event_row_of(e, now)));
        i = i + 1;
    }
    assert(events@.take(events.len() as int) =~= events@);
    sort_events_by_age(rows.as_slice())
}

/// The field selector that picks the events of one object.
pub fn event_field_selector(kind: &str, name: &str, namespace: &str) -> (r: String)
    ensures
        r@ == "involvedObject.kind="@ + kind@ + ",involvedObject.name="@ + name@
            + ",involvedObject.namespace="@ + namespace@,
{
    let mut s = owned("involvedObject.kind=");
    s.append(kind);
    s.append(",involvedObject.name=");
    s.append(name);
    s.append(",involvedObject.namespace=");
    s.append(namespace);
    s
}

/// One line of the events text: `[type] reason — message (age)`.
pub open spec fn event_line(e: (Seq<char>, Seq<char>, Seq<char>, Seq<char>)) -> Seq<char> {
    "["@ + e.0 + "] "@ + e.1 + " — "@ + e.2 + " ("@ + e.3 + ")"@
}

pub open spec fn events_text(v: Seq<EventRow>) -> Seq<char> {
    if v.len() == 0 {
        "No events for this resource."@
    } else {
        join_with(events_view(v).map_values(|e: (Seq<char>, Seq<char>, Seq<char>, Seq<char>)| event_line(e)), "\n"@)
    }
}

/// The events as text, one per line.
pub fn format_events_text(events: &[EventRow]) -> (r: String)
    ensures
        r@ == events_text(events@),
{
    if events.len() == 0 {
        return owned("No events for this resource.");
    }
    let mut lines: Vec<String> = Vec::new();
    let mut i: usize = 0;
    let ghost all = events_view(events@).map_values(|e: (Seq<char>, Seq<char>, Seq<char>, Seq<char>)| event_line(e));
    while i < events.len()
        invariant
            i <= events.len(),
            all == events_view(events@).map_values(|e: (Seq<char>, Seq<char>, Seq<char>, Seq<char>)| event_line(e)),
            texts(lines@) == all.take(i as int),
        decreases events.len() - i,
    {
        let e = &events[i];
        let mut s = owned("[");
        s.append(e.type_.as_str());
        s.append("] ");
        s.append(e.reason.as_str());
        s.append(" — ");
        s.append(e.message.as_str());
        s.append(" (");
        s.append(e.age.as_str());
        s.append(")");
        let ghost before = texts(lines@);
        lines.push(s);
        assert(texts(lines@) =~= before.push(s@));
        assert(all.take(i + 1) =~= all.take(i as int).push(all[i as int]));
        i = i + 1;
    }
    assert(all.take(events.len() as int) =~= all);
    join_texts(lines.as_slice(), "\n")
}

} // verus!
