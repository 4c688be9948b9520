//! Ordering events by their time of day.
//!
//! The order is stable: events of the same time stay in the order in which
//! they came. The sorted list is described as a mathematical function of the
//! list that is sorted; that it is ordered, holds the same events and keeps
//! equal times in their order is proved of that function.

use crate::events::events::Event;
use crate::time::TimeOfDay;
use vstd::prelude::*;

verus! {

/// Whether `a` may stand before `b`: its time is not later.
pub open spec fn time_le(a: Event, b: Event) -> bool {
    a.event_time.spec_le(&b.event_time)
}

/// `events` with `e` put in behind the last event whose time is not later
/// than that of `e`.
pub open spec fn insert_by_time(events: Seq<Event>, e: Event) -> Seq<Event>
    decreases events.len(),
{
    if events.len() == 0 {
        seq![e]
    } else if time_le(events.last(), e) {
        events.push(e)
    } else {
        insert_by_time(events.drop_last(), e).push(events.last())
    }
}

/// `events` in the order of their times, events of the same time in the
/// order in which they stand in `events`.
pub open spec fn sorted_by_time(events: Seq<Event>) -> Seq<Event>
    decreases events.len(),
{
    if events.len() == 0 {
        Seq::empty()
    } else {
        insert_by_time(sorted_by_time(events.drop_last()), events.last())
    }
}

/// No event stands before one of an earlier time.
pub open spec fn is_sorted_by_time(events: Seq<Event>) -> bool {
    forall|i: int, j: int| 0 <= i < j < events.len() ==> time_le(events[i], events[j])
}

/// The events of `events` whose time is `t`, in their order.
pub open spec fn at_time(events: Seq<Event>, t: TimeOfDay) -> Seq<Event> {
    events.filter(|e: Event| e.event_time == t)
}

/// Putting an event in adds that event and no other, keeps an ordered list
/// ordered, and puts the event behind those of its own time.
pub proof fn lemma_insert_by_time(events: Seq<Event>, e: Event, t: TimeOfDay)
    ensures
        insert_by_time(events, e).len() == events.len() + 1,
        insert_by_time(events, e).to_multiset() == events.to_multiset().insert(e),
        is_sorted_by_time(events) ==> is_sorted_by_time(insert_by_time(events, e)),
        forall|k: int|
            0 <= k < insert_by_time(events, e).len() ==> insert_by_time(events, e)[k] == e
                || events.contains(#[trigger] insert_by_time(events, e)[k]),
        at_time(insert_by_time(events, e), t) == if e.event_time == t {
            at_time(events, t).push(e)
        } else {
            at_time(events, t)
        },
    decreases events.len(),
{
    broadcast use vstd::seq_lib::group_to_multiset_ensures;

    let pred = |x: Event| x.event_time == t;
    let out = insert_by_time(events, e);
    if events.len() == 0 {
        assert(events.to_multiset() =~= vstd::multiset::Multiset::empty());
        assert(out =~= Seq::<Event>::empty().push(e));
        assert(events =~= Seq::<Event>::empty());
        Seq::<Event>::empty().lemma_filter_push(e, pred);
    } else if time_le(events.last(), e) {
        events.lemma_filter_push(e, pred);
        assert forall|k: int| 0 <= k < out.len() implies out[k] == e || events.contains(
            #[trigger] out[k],
        ) by {
            if k < events.len() {
                assert(events[k] == out[k]);
            }
        }
        if is_sorted_by_time(events) {
            assert forall|i: int, j: int| 0 <= i < j < out.len() implies time_le(
                out[i],
                out[j],
            ) by {
                if j < events.len() {
                    assert(time_le(events[i], events[j]));
                } else if i < events.len() - 1 {
                    assert(time_le(events[i], events[events.len() - 1]));
                }
            }
        }
    } else {
        let front = events.drop_last();
        let last = events.last();
        lemma_insert_by_time(front, e, t);
        let inner = insert_by_time(front, e);
        assert(events =~= front.push(last));
        assert(out.to_multiset() =~= events.to_multiset().insert(e));
        inner.lemma_filter_push(last, pred);
        front.lemma_filter_push(last, pred);
        assert(last.event_time != e.event_time);
        assert forall|k: int| 0 <= k < out.len() implies out[k] == e || events.contains(
            #[trigger] out[k],
        ) by {
            if k < inner.len() {
                assert(out[k] == inner[k]);
                if inner[k] != e {
                    assert(front.contains(inner[k]));
                    let w = choose|w: int| 0 <= w < front.len() && front[w] == inner[k];
                    assert(events[w] == inner[k]);
                }
            } else {
                assert(out[k] == events[events.len() - 1]);
            }
        }
        if is_sorted_by_time(events) {
            assert(is_sorted_by_time(front)) by {
                assert forall|i: int, j: int| 0 <= i < j < front.len() implies time_le(
                    front[i],
                    front[j],
                ) by {
                    assert(time_le(events[i], events[j]));
                }
            }
            assert forall|i: int, j: int| 0 <= i < j < out.len() implies time_le(
                out[i],
                out[j],
            ) by {
                if j < inner.len() {
                    assert(time_le(inner[i], inner[j]));
                } else {
                    assert(out[j] == last);
                    assert(out[i] == inner[i]);
                    if inner[i] != e {
                        assert(front.contains(inner[i]));
                        let w = choose|w: int| 0 <= w < front.len() && front[w] == inner[i];
                        assert(time_le(events[w], events[events.len() - 1]));
                    }
                }
            }
        }
    }
}

/// The sorted list is ordered by time.
pub proof fn law_sorted_is_ordered(events: Seq<Event>)
    ensures
        is_sorted_by_time(sorted_by_time(events)),
        sorted_by_time(events).len() == events.len(),
    decreases events.len(),
{
    if events.len() > 0 {
        law_sorted_is_ordered(events.drop_last());
        lemma_insert_by_time(
            sorted_by_time(events.drop_last()),
            events.last(),
            events.last().event_time,
        );
    }
}

/// The sorted list holds the events that were given, each as often as it was
/// given, and no other.
pub proof fn law_sorted_is_permutation(events: Seq<Event>)
    ensures
        sorted_by_time(events).to_multiset() == events.to_multiset(),
    decreases events.len(),
{
    broadcast use vstd::seq_lib::group_to_multiset_ensures;

    if events.len() > 0 {
        law_sorted_is_permutation(events.drop_last());
        lemma_insert_by_time(
            sorted_by_time(events.drop_last()),
            events.last(),
            events.last().event_time,
        );
        assert(events =~= events.drop_last().push(events.last()));
    } else {
        assert(events =~= Seq::<Event>::empty());
    }
}

/// Sorting is stable: the events of any one time stand in the sorted list in
/// the order in which they were given.
pub proof fn law_sorted_is_stable(events: Seq<Event>, t: TimeOfDay)
    ensures
        at_time(sorted_by_time(events), t) == at_time(events, t),
    decreases events.len(),
{
    if events.len() > 0 {
        law_sorted_is_stable(events.drop_last(), t);
        lemma_insert_by_time(sorted_by_time(events.drop_last()), events.last(), t);
        assert(events =~= events.drop_last().push(events.last()));
        events.drop_last().lemma_filter_push(events.last(), |x: Event| x.event_time == t);
    }
}

/// Puts `e` into `events` behind the last event whose time is not later.
pub fn insert_event_by_time(events: &mut Vec<Event>, e: Event)
    ensures
        final(events)@ == insert_by_time(old(events)@, e),
{
    let mut pos: usize = events.len();
    proof {
        assert(events@.take(pos as int) =~= events@);
        assert(insert_by_time(events@, e) + events@.skip(pos as int) =~= insert_by_time(
            events@,
            e,
        ));
    }
    while pos > 0 && !events[pos - 1].event_time.le(&e.event_time)
        invariant
            pos <= events@.len(),
            events@ == old(events)@,
            insert_by_time(events@, e) == insert_by_time(events@.take(pos as int), e)
                + events@.skip(pos as int),
        decreases pos,
    {
        let ghost front = events@.take(pos as int);
        assert(front.drop_last() =~= events@.take(pos - 1));
        assert(insert_by_time(front.drop_last(), e).push(front.last()) + events@.skip(pos as int)
            =~= insert_by_time(front.drop_last(), e) + events@.skip(pos - 1));
        pos = pos - 1;
    }
    proof {
        let front = events@.take(pos as int);
        assert(insert_by_time(front, e) =~= front.push(e));
        assert(front.push(e) + events@.skip(pos as int) =~= events@.insert(pos as int, e));
    }
    events.insert(pos, e);
}

/// Sorts `events` by their time of day; events of the same time keep their
/// order.
pub fn sort_by_time(events: Vec<Event>) -> (r: Vec<Event>)
    ensures
        r@ == sorted_by_time(events@),
        r@.len() == events@.len(),
        is_sorted_by_time(r@),
        r@.to_multiset() == events@.to_multiset(),
        forall|t: TimeOfDay| #[trigger] at_time(r@, t) == at_time(events@, t),
{
    let ghost all = events@;
    let mut out: Vec<Event> = Vec::new();
    for e in it: events
        invariant
            it.seq() == all,
            out@ == sorted_by_time(all.take(it.index() as int)),
    {
        proof {
            let next = all.take(it.index() + 1);
            assert(next.drop_last() =~= all.take(it.index() as int));
            assert(next.last() == e);
        }
        insert_event_by_time(&mut out, e);
    }
    proof {
        assert(all.take(all.len() as int) =~= all);
        law_sorted_is_ordered(all);
        law_sorted_is_permutation(all);
        assert forall|t: TimeOfDay| #[trigger] at_time(out@, t) == at_time(all, t) by {
            law_sorted_is_stable(all, t);
        }
    }
    out
}

} // verus!
