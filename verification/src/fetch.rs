//! Fetch: how the answers of many relays become one result.

use vstd::prelude::*;
use vstd::string::*;
use crate::error::NostrError;
use crate::event::{EventData, NostrEvent};
use crate::filter::{FilterData, NostrFilter};
use crate::seqs::{kept, lemma_kept, lemma_kept_ends, lemma_kept_step};

verus! {

/// The events of a list, as plain values.
pub open spec fn events_view(events: Seq<NostrEvent>) -> Seq<EventData> {
    Seq::new(events.len(), |i: int| events[i]@)
}

/// The batches of a list, as plain values.
pub open spec fn batches_view(batches: Seq<Vec<NostrEvent>>) -> Seq<Seq<EventData>> {
    Seq::new(batches.len(), |i: int| events_view(batches[i]@))
}

/// Some event of the list has this id.
pub open spec fn has_id(events: Seq<EventData>, id: Seq<char>) -> bool {
    exists|i: int| 0 <= i < events.len() && (#[trigger] events[i]).id == id
}

/// `seen` with `event` behind it, unless an event of that id was seen
/// before: the first one seen wins.
pub open spec fn add_unique(seen: Seq<EventData>, event: EventData) -> Seq<EventData> {
    if has_id(seen, event.id) {
        seen
    } else {
        seen.push(event)
    }
}

/// `seen` followed by the events of `batch` whose id was not seen before.
pub open spec fn add_batch(seen: Seq<EventData>, batch: Seq<EventData>) -> Seq<EventData>
    decreases batch.len(),
{
    if batch.len() == 0 {
        seen
    } else {
        add_unique(add_batch(seen, batch.drop_last()), batch.last())
    }
}

/// The events of all batches, each id once, in the order in which the ids
/// were first seen.
pub open spec fn first_seen(batches: Seq<Seq<EventData>>) -> Seq<EventData>
    decreases batches.len(),
{
    if batches.len() == 0 {
        Seq::empty()
    } else {
        add_batch(first_seen(batches.drop_last()), batches.last())
    }
}

/// `sorted` with `event` put behind the last event that is not older than
/// it.
pub open spec fn insert_by_time(sorted: Seq<EventData>, event: EventData) -> Seq<EventData>
    decreases sorted.len(),
{
    if sorted.len() == 0 || sorted.last().created_at >= event.created_at {
        sorted.push(event)
    } else {
        insert_by_time(sorted.drop_last(), event).push(sorted.last())
    }
}

/// The events from newest to oldest; events of one time keep their order.
pub open spec fn newest_first(events: Seq<EventData>) -> Seq<EventData>
    decreases events.len(),
{
    if events.len() == 0 {
        Seq::empty()
    } else {
        insert_by_time(newest_first(events.drop_last()), events.last())
    }
}

/// The first `limit` events, or all of them where there is no limit or
/// there are no more than that.
pub open spec fn limited(events: Seq<EventData>, limit: Option<u64>) -> Seq<EventData> {
    match limit {
        Some(n) => if n < events.len() {
            events.take(n as int)
        } else {
            events
        },
        None => events,
    }
}

/// What a fetch returns for the batches that the relays sent: each id once,
/// the first event seen for it; newest first; no more than `limit`.
pub open spec fn merged(batches: Seq<Seq<EventData>>, limit: Option<u64>) -> Seq<EventData> {
    limited(newest_first(first_seen(batches)), limit)
}

/// No two events of the list share an id.
pub open spec fn ids_distinct(events: Seq<EventData>) -> bool {
    forall|i: int, j: int|
        0 <= i < events.len() && 0 <= j < events.len() && i != j ==> (#[trigger] events[i]).id != (
        #[trigger] events[j]).id
}

/// Every event is at least as new as the one behind it.
pub open spec fn is_newest_first(events: Seq<EventData>) -> bool {
    forall|i: int, j: int|
        0 <= i <= j < events.len() ==> (#[trigger] events[i]).created_at >= (
        #[trigger] events[j]).created_at
}

/// Some event of some batch has this id.
pub open spec fn batches_have_id(batches: Seq<Seq<EventData>>, id: Seq<char>) -> bool {
    exists|b: int| 0 <= b < batches.len() && has_id(#[trigger] batches[b], id)
}

/// Some batch holds this event.
pub open spec fn batches_hold(batches: Seq<Seq<EventData>>, event: EventData) -> bool {
    exists|b: int| 0 <= b < batches.len() && (#[trigger] batches[b]).contains(event)
}

/// Where `insert_by_time` puts an event: behind the last event that is not
/// older than it.
pub open spec fn slot(sorted: Seq<EventData>, event: EventData) -> int
    decreases sorted.len(),
{
    if sorted.len() == 0 || sorted.last().created_at >= event.created_at {
        sorted.len() as int
    } else {
        slot(sorted.drop_last(), event)
    }
}

/// `position` is behind every event that is not older than `event` and
/// before every event that is.
pub open spec fn is_slot(sorted: Seq<EventData>, event: EventData, position: int) -> bool {
    &&& 0 <= position <= sorted.len()
    &&& forall|i: int|
        position <= i < sorted.len() ==> (#[trigger] sorted[i]).created_at < event.created_at
    &&& position > 0 ==> sorted[position - 1].created_at >= event.created_at
}

/// `insert_by_time` inserts at `slot`, and `slot` is the one position that
/// `is_slot` admits.
pub proof fn lemma_insert_at_slot(sorted: Seq<EventData>, event: EventData)
    ensures
        is_slot(sorted, event, slot(sorted, event)),
        insert_by_time(sorted, event) == sorted.insert(slot(sorted, event), event),
        forall|position: int| is_slot(sorted, event, position) ==> position == slot(sorted, event),
    decreases sorted.len(),
{
    let p = slot(sorted, event);
    if sorted.len() == 0 || sorted.last().created_at >= event.created_at {
        assert(sorted.insert(p, event) =~= sorted.push(event));
    } else {
        let front = sorted.drop_last();
        lemma_insert_at_slot(front, event);
        assert(forall|i: int| 0 <= i < front.len() ==> front[i] == sorted[i]);
        assert(sorted.insert(p, event) =~= front.insert(p, event).push(sorted.last()));
    }
    assert forall|position: int| is_slot(sorted, event, position) implies position == p by {
        if position < p {
            assert(sorted[p - 1].created_at < event.created_at);
        }
        if position > p {
            assert(sorted[position - 1].created_at < event.created_at);
        }
    }
}

/// What inserting by time does to a list: the event is added and nothing
/// else changes; a list that was newest-first stays so; distinct ids stay
/// distinct where the event's id is new.
pub proof fn lemma_insert_by_time(sorted: Seq<EventData>, event: EventData)
    ensures
        insert_by_time(sorted, event).len() == sorted.len() + 1,
        forall|id: Seq<char>| #[trigger]
            has_id(insert_by_time(sorted, event), id) <==> has_id(sorted, id) || event.id == id,
        forall|e: EventData| #[trigger]
            insert_by_time(sorted, event).contains(e) <==> sorted.contains(e) || e == event,
        is_newest_first(sorted) ==> is_newest_first(insert_by_time(sorted, event)),
        ids_distinct(sorted) && !has_id(sorted, event.id) ==> ids_distinct(
            insert_by_time(sorted, event),
        ),
{
    let p = slot(sorted, event);
    let out = insert_by_time(sorted, event);
    lemma_insert_at_slot(sorted, event);
    sorted.insert_ensures(p, event);
    assert(forall|i: int| 0 <= i < p ==> out[i] == sorted[i]);
    assert(forall|i: int| p < i < out.len() ==> out[i] == sorted[i - 1]) by {
        assert forall|i: int| p < i < out.len() implies out[i] == sorted[i - 1] by {
            assert(out[(i - 1) + 1] == sorted[i - 1]);
        }
    }
    assert forall|id: Seq<char>| #[trigger]
        has_id(out, id) <==> has_id(sorted, id) || event.id == id by {
        if has_id(out, id) {
            let i = choose|i: int| 0 <= i < out.len() && (#[trigger] out[i]).id == id;
            if i < p {
                assert(sorted[i].id == id);
            } else if i > p {
                assert(sorted[i - 1].id == id);
            }
        }
        if has_id(sorted, id) {
            let i = choose|i: int| 0 <= i < sorted.len() && (#[trigger] sorted[i]).id == id;
            if i < p {
                assert(out[i].id == id);
            } else {
                assert(out[i + 1].id == id);
            }
        }
        if event.id == id {
            assert(out[p].id == id);
        }
    }
    assert forall|e: EventData| #[trigger] out.contains(e) <==> sorted.contains(e) || e == event by {
        if out.contains(e) {
            let i = choose|i: int| 0 <= i < out.len() && out[i] == e;
            if i < p {
                assert(sorted[i] == e);
            } else if i > p {
                assert(sorted[i - 1] == e);
            }
        }
        if sorted.contains(e) {
            let i = choose|i: int| 0 <= i < sorted.len() && sorted[i] == e;
            if i < p {
                assert(out[i] == e);
            } else {
                assert(out[i + 1] == e);
            }
        }
        if e == event {
            assert(out[p] == e);
        }
    }
    if is_newest_first(sorted) {
        assert forall|i: int, j: int| 0 <= i <= j < out.len() implies (#[trigger] out[i]).created_at
            >= (#[trigger] out[j]).created_at by {
            if i < p && j == p {
                assert(sorted[i].created_at >= sorted[p - 1].created_at);
            } else if i < p && j > p {
                assert(sorted[i].created_at >= sorted[j - 1].created_at);
            } else if i == p && j > p {
                assert(sorted[j - 1].created_at < event.created_at);
            } else if i > p {
                assert(sorted[i - 1].created_at >= sorted[j - 1].created_at);
            } else if j < p {
                assert(sorted[i].created_at >= sorted[j].created_at);
            }
        }
    }
    if ids_distinct(sorted) && !has_id(sorted, event.id) {
        assert forall|i: int, j: int|
            0 <= i < out.len() && 0 <= j < out.len() && i != j implies (#[trigger] out[i]).id != (
        #[trigger] out[j]).id by {
            let a = if i < p {
                i
            } else {
                i - 1
            };
            let b = if j < p {
                j
            } else {
                j - 1
            };
            if i != p && j != p {
                assert(sorted[a].id != sorted[b].id);
            } else if i == p {
                assert(sorted[b].id != event.id);
            } else {
                assert(sorted[a].id != event.id);
            }
        }
    }
}

/// Ordering a list newest-first rearranges it and changes nothing else.
pub proof fn lemma_newest_first(events: Seq<EventData>)
    ensures
        newest_first(events).len() == events.len(),
        is_newest_first(newest_first(events)),
        forall|id: Seq<char>| #[trigger] has_id(newest_first(events), id) <==> has_id(events, id),
        forall|e: EventData| #[trigger] newest_first(events).contains(e) <==> events.contains(e),
        ids_distinct(events) ==> ids_distinct(newest_first(events)),
    decreases events.len(),
{
    let out = newest_first(events);
    if events.len() > 0 {
        let front = events.drop_last();
        let last = events.last();
        lemma_newest_first(front);
        lemma_insert_by_time(newest_first(front), last);
        assert(events =~= front.push(last));
        assert forall|id: Seq<char>| #[trigger] has_id(out, id) <==> has_id(events, id) by {
            if has_id(events, id) {
                let i = choose|i: int| 0 <= i < events.len() && (#[trigger] events[i]).id == id;
                if i < front.len() {
                    assert(front[i].id == id);
                }
            }
            if has_id(front, id) {
                let i = choose|i: int| 0 <= i < front.len() && (#[trigger] front[i]).id == id;
                assert(events[i].id == id);
            }
            if last.id == id {
                assert(events[events.len() - 1].id == id);
            }
        }
        assert forall|e: EventData| #[trigger] out.contains(e) <==> events.contains(e) by {
            if events.contains(e) {
                let i = choose|i: int| 0 <= i < events.len() && events[i] == e;
                if i < front.len() {
                    assert(front[i] == e);
                }
            }
            if front.contains(e) {
                let i = choose|i: int| 0 <= i < front.len() && front[i] == e;
                assert(events[i] == e);
            }
            if e == last {
                assert(events[events.len() - 1] == e);
            }
        }
        if ids_distinct(events) {
            assert forall|i: int, j: int|
                0 <= i < front.len() && 0 <= j < front.len() && i != j implies (
            #[trigger] front[i]).id != (#[trigger] front[j]).id by {
                assert(events[i].id != events[j].id);
            }
            if has_id(front, last.id) {
                let i = choose|i: int| 0 <= i < front.len() && (#[trigger] front[i]).id == last.id;
                assert(events[i].id != events[events.len() - 1].id);
            }
        }
    } else {
        assert forall|id: Seq<char>| #[trigger] has_id(out, id) <==> has_id(events, id) by {}
        assert forall|e: EventData| #[trigger] out.contains(e) <==> events.contains(e) by {}
    }
}

/// Adding one event unless its id was seen: ids stay distinct, the ids are
/// those seen before and the event's, and nothing but the event is new.
pub proof fn lemma_add_unique(seen: Seq<EventData>, event: EventData)
    ensures
        ids_distinct(seen) ==> ids_distinct(add_unique(seen, event)),
        forall|id: Seq<char>| #[trigger]
            has_id(add_unique(seen, event), id) <==> has_id(seen, id) || event.id == id,
        forall|e: EventData| #[trigger]
            add_unique(seen, event).contains(e) ==> seen.contains(e) || e == event,
        forall|e: EventData| seen.contains(e) ==> #[trigger] add_unique(seen, event).contains(e),
{
    let out = add_unique(seen, event);
    assert forall|id: Seq<char>| #[trigger]
        has_id(out, id) <==> has_id(seen, id) || event.id == id by {
        if has_id(out, id) && !has_id(seen, event.id) {
            let i = choose|i: int| 0 <= i < out.len() && (#[trigger] out[i]).id == id;
            if i < seen.len() {
                assert(seen[i].id == id);
            }
        }
        if has_id(seen, id) {
            let i = choose|i: int| 0 <= i < seen.len() && (#[trigger] seen[i]).id == id;
            assert(out[i].id == id);
        }
        if event.id == id && !has_id(seen, event.id) {
            assert(out[seen.len() as int].id == id);
        }
    }
    assert forall|e: EventData| #[trigger] out.contains(e) implies seen.contains(e) || e == event by {
        let i = choose|i: int| 0 <= i < out.len() && out[i] == e;
        if i < seen.len() {
            assert(seen[i] == e);
        }
    }
    assert forall|e: EventData| seen.contains(e) implies #[trigger] out.contains(e) by {
        let i = choose|i: int| 0 <= i < seen.len() && seen[i] == e;
        assert(out[i] == e);
    }
    if ids_distinct(seen) && !has_id(seen, event.id) {
        assert forall|i: int, j: int|
            0 <= i < out.len() && 0 <= j < out.len() && i != j implies (#[trigger] out[i]).id != (
        #[trigger] out[j]).id by {
            if i < seen.len() && j < seen.len() {
                assert(seen[i].id != seen[j].id);
            } else if i < seen.len() {
                assert(seen[i].id != event.id);
            } else {
                assert(seen[j].id != event.id);
            }
        }
    }
}

/// Adding a batch: ids stay distinct, the ids are those seen before and the
/// batch's, and every event comes from what was seen or from the batch.
pub proof fn lemma_add_batch(seen: Seq<EventData>, batch: Seq<EventData>)
    ensures
        ids_distinct(seen) ==> ids_distinct(add_batch(seen, batch)),
        forall|id: Seq<char>| #[trigger]
            has_id(add_batch(seen, batch), id) <==> has_id(seen, id) || has_id(batch, id),
        forall|e: EventData| #[trigger]
            add_batch(seen, batch).contains(e) ==> seen.contains(e) || batch.contains(e),
        forall|e: EventData| seen.contains(e) ==> #[trigger] add_batch(seen, batch).contains(e),
    decreases batch.len(),
{
    let out = add_batch(seen, batch);
    if batch.len() == 0 {
        assert forall|id: Seq<char>| #[trigger]
            has_id(out, id) <==> has_id(seen, id) || has_id(batch, id) by {}
    } else {
        let front = batch.drop_last();
        let last = batch.last();
        let mid = add_batch(seen, front);
        lemma_add_batch(seen, front);
        lemma_add_unique(mid, last);
        assert forall|id: Seq<char>| #[trigger]
            has_id(out, id) <==> has_id(seen, id) || has_id(batch, id) by {
            if has_id(batch, id) {
                let i = choose|i: int| 0 <= i < batch.len() && (#[trigger] batch[i]).id == id;
                if i < front.len() {
                    assert(front[i].id == id);
                }
            }
            if has_id(front, id) {
                let i = choose|i: int| 0 <= i < front.len() && (#[trigger] front[i]).id == id;
                assert(batch[i].id == id);
            }
            if last.id == id {
                assert(batch[batch.len() - 1].id == id);
            }
        }
        assert forall|e: EventData| #[trigger] out.contains(e) implies seen.contains(e)
            || batch.contains(e) by {
            if mid.contains(e) && !seen.contains(e) {
                assert(front.contains(e));
                let i = choose|i: int| 0 <= i < front.len() && front[i] == e;
                assert(batch[i] == e);
            }
            if e == last {
                assert(batch[batch.len() - 1] == e);
            }
        }
        assert forall|e: EventData| seen.contains(e) implies #[trigger] out.contains(e) by {
            assert(mid.contains(e));
        }
    }
}

/// Collecting the batches: every id once, exactly the ids that some batch
/// has, and every event taken from a batch.
pub proof fn lemma_first_seen(batches: Seq<Seq<EventData>>)
    ensures
        ids_distinct(first_seen(batches)),
        forall|id: Seq<char>| #[trigger]
            has_id(first_seen(batches), id) <==> batches_have_id(batches, id),
        forall|e: EventData| #[trigger]
            first_seen(batches).contains(e) ==> batches_hold(batches, e),
    decreases batches.len(),
{
    let out = first_seen(batches);
    if batches.len() == 0 {
        assert forall|id: Seq<char>| #[trigger] has_id(out, id) <==> batches_have_id(batches, id) by {}
        assert forall|e: EventData| #[trigger] out.contains(e) implies batches_hold(batches, e) by {}
    } else {
        let front = batches.drop_last();
        let last = batches.last();
        lemma_first_seen(front);
        lemma_add_batch(first_seen(front), last);
        assert forall|id: Seq<char>| #[trigger] has_id(out, id) <==> batches_have_id(batches, id) by {
            if batches_have_id(batches, id) {
                let b = choose|b: int| 0 <= b < batches.len() && has_id(#[trigger] batches[b], id);
                if b < front.len() {
                    assert(has_id(front[b], id));
                    assert(batches_have_id(front, id));
                }
            }
            if batches_have_id(front, id) {
                let b = choose|b: int| 0 <= b < front.len() && has_id(#[trigger] front[b], id);
                assert(has_id(batches[b], id));
            }
            if has_id(last, id) {
                assert(has_id(batches[batches.len() - 1], id));
            }
        }
        assert forall|e: EventData| #[trigger] out.contains(e) implies batches_hold(batches, e) by {
            if first_seen(front).contains(e) {
                let b = choose|b: int| 0 <= b < front.len() && (#[trigger] front[b]).contains(e);
                assert(batches[b].contains(e));
            } else {
                assert(batches[batches.len() - 1].contains(e));
            }
        }
    }
}

/// However often the relays repeat an event, the merged result holds each id
/// once.
pub proof fn lemma_merged_ids_distinct(batches: Seq<Seq<EventData>>, limit: Option<u64>)
    ensures
        ids_distinct(merged(batches, limit)),
{
    let all = newest_first(first_seen(batches));
    lemma_first_seen(batches);
    lemma_newest_first(first_seen(batches));
    let out = merged(batches, limit);
    assert forall|i: int, j: int|
        0 <= i < out.len() && 0 <= j < out.len() && i != j implies (#[trigger] out[i]).id != (
    #[trigger] out[j]).id by {
        assert(out[i] == all[i] && out[j] == all[j]);
    }
}

/// The merged result is never longer than the limit.
pub proof fn lemma_merged_within_limit(batches: Seq<Seq<EventData>>, limit: Option<u64>)
    ensures
        limit matches Some(n) ==> merged(batches, limit).len() <= n,
{
}

/// The merged result runs from newest to oldest.
pub proof fn lemma_merged_newest_first(batches: Seq<Seq<EventData>>, limit: Option<u64>)
    ensures
        is_newest_first(merged(batches, limit)),
{
    let all = newest_first(first_seen(batches));
    lemma_newest_first(first_seen(batches));
    let out = merged(batches, limit);
    assert forall|i: int, j: int| 0 <= i <= j < out.len() implies (#[trigger] out[i]).created_at >= (
    #[trigger] out[j]).created_at by {
        assert(out[i] == all[i] && out[j] == all[j]);
    }
}

/// Every merged event was sent by a relay, and without a limit every id
/// that a relay sent is in the merged result.
pub proof fn lemma_merged_from_batches(batches: Seq<Seq<EventData>>, limit: Option<u64>)
    ensures
        forall|e: EventData| #[trigger]
            merged(batches, limit).contains(e) ==> batches_hold(batches, e),
        limit is None ==> forall|id: Seq<char>| #[trigger]
            has_id(merged(batches, limit), id) <==> batches_have_id(batches, id),
{
    let all = newest_first(first_seen(batches));
    lemma_first_seen(batches);
    lemma_newest_first(first_seen(batches));
    let out = merged(batches, limit);
    assert forall|e: EventData| #[trigger] out.contains(e) implies batches_hold(batches, e) by {
        let i = choose|i: int| 0 <= i < out.len() && out[i] == e;
        assert(all[i] == e);
        assert(all.contains(e));
        assert(first_seen(batches).contains(e));
    }
}

/// Whether some event of the list has this id.
fn holds_id(events: &Vec<NostrEvent>, id: &String) -> (found: bool)
    ensures
        found == has_id(events_view(events@), id@),
{
    let mut i: usize = 0;
    while i < events.len()
        invariant
            i <= events.len(),
            forall|j: int| 0 <= j < i ==> (#[trigger] events_view(events@)[j]).id != id@,
        decreases events.len() - i,
    {
        assert(events_view(events@)[i as int].id == events[i as int].id@);
        if events[i].id == *id {
            return true;
        }
        i += 1;
    }
    false
}

/// The position at which an event of the given time goes into a list that
/// runs from newest to oldest.
fn find_slot(sorted: &Vec<NostrEvent>, event: &NostrEvent) -> (position: usize)
    ensures
        is_slot(events_view(sorted@), event@, position as int),
{
    let mut p: usize = sorted.len();
    while p > 0 && sorted[p - 1].created_at < event.created_at
        invariant
            p <= sorted.len(),
            forall|i: int|
                p <= i < sorted.len() ==> (#[trigger] events_view(sorted@)[i]).created_at
                    < event.created_at,
        decreases p,
    {
        assert(events_view(sorted@)[p - 1].created_at == sorted[p - 1].created_at);
        p -= 1;
    }
    assert(p > 0 ==> events_view(sorted@)[p - 1].created_at == sorted[p - 1].created_at);
    p
}

/// Merges the batches of events that the relays sent into one result: each
/// id once, the first event seen for it winning; from newest to oldest,
/// events of one time in the order in which they were seen; cut to `limit`
/// where one is set.
pub fn merge_events(batches: &Vec<Vec<NostrEvent>>, limit: Option<u64>) -> (result: Vec<NostrEvent>)
    ensures
        events_view(result@) == merged(batches_view(batches@), limit),
        ids_distinct(events_view(result@)),
        is_newest_first(events_view(result@)),
        limit matches Some(n) ==> result.len() <= n,
{
    let ghost all = batches_view(batches@);
    let mut sorted: Vec<NostrEvent> = Vec::new();
    let ghost mut seen: Seq<EventData> = Seq::empty();
    let mut b: usize = 0;
    assert(all.take(0) =~= Seq::<Seq<EventData>>::empty());
    assert(events_view(sorted@) =~= newest_first(seen));
    while b < batches.len()
        invariant
            b <= batches.len(),
            all == batches_view(batches@),
            seen == first_seen(all.take(b as int)),
            events_view(sorted@) == newest_first(seen),
        decreases batches.len() - b,
    {
        let batch = &batches[b];
        let ghost base = seen;
        let ghost this = all[b as int];
        let mut j: usize = 0;
        assert(this.take(0) =~= Seq::<EventData>::empty());
        while j < batch.len()
            invariant
                j <= batch.len(),
                this == events_view(batch@),
                seen == add_batch(base, this.take(j as int)),
                events_view(sorted@) == newest_first(seen),
            decreases batch.len() - j,
        {
            let event = &batch[j];
            proof {
                assert(this.take(j + 1).drop_last() =~= this.take(j as int));
                assert(this.take(j + 1).last() == event@);
                lemma_newest_first(seen);
            }
            if !holds_id(&sorted, &event.id) {
                let position = find_slot(&sorted, event);
                let ghost before = events_view(sorted@);
                sorted.insert(position, event.duplicate());
                proof {
                    lemma_insert_at_slot(before, event@);
                    before.insert_ensures(position as int, event@);
                    assert(events_view(sorted@) =~= before.insert(position as int, event@));
                    let grown = seen.push(event@);
                    assert(grown.drop_last() =~= seen);
                    assert(grown.last() == event@);
                    seen = grown;
                }
            }
            j += 1;
        }
        proof {
            assert(this.take(batch.len() as int) =~= this);
            assert(all.take(b + 1).drop_last() =~= all.take(b as int));
            assert(all.take(b + 1).last() == this);
        }
        b += 1;
    }
    proof {
        assert(all.take(batches.len() as int) =~= all);
        lemma_merged_ids_distinct(all, limit);
        lemma_merged_newest_first(all, limit);
    }
    match limit {
        Some(n) => {
            if n < sorted.len() as u64 {
                let ghost whole = events_view(sorted@);
                sorted.truncate(n as usize);
                assert(events_view(sorted@) =~= whole.take(n as int));
            }
        },
        None => {},
    }
    sorted
}

/// What one relay sent back to a query: the events it had, or why it sent
/// none. A relay that was cut off by the timeout reports what it had sent
/// until then.
#[derive(Debug)]
pub struct RelayReply {
    pub url: String,
    pub events: Result<Vec<NostrEvent>, String>,
}

/// The events of a list that a fetch hands on: those that verify, are
/// written in canonical form and meet the filter, in their order. A relay
/// may send anything; only these count.
pub open spec fn accepted_events(events: Seq<EventData>, filter: FilterData) -> Seq<EventData> {
    kept(events, |e: EventData| e.is_sound() && filter.matches(e))
}

/// Every event of the list verifies and is written in canonical form.
pub open spec fn all_sound(events: Seq<EventData>) -> bool {
    forall|i: int| 0 <= i < events.len() ==> (#[trigger] events[i]).is_sound()
}

/// Every event of the list meets the filter.
pub open spec fn all_match(events: Seq<EventData>, filter: FilterData) -> bool {
    forall|i: int| 0 <= i < events.len() ==> filter.matches(#[trigger] events[i])
}

/// The batches of the relays that answered, in the order of the replies,
/// each with the events that the fetch hands on.
pub open spec fn answered(replies: Seq<RelayReply>, filter: FilterData) -> Seq<Seq<EventData>>
    decreases replies.len(),
{
    if replies.len() == 0 {
        Seq::empty()
    } else {
        let rest = answered(replies.drop_last(), filter);
        match replies.last().events {
            Ok(events) => rest.push(accepted_events(events_view(events@), filter)),
            Err(_) => rest,
        }
    }
}

/// Why the first relay that failed did so, if any relay failed.
pub open spec fn first_failure(replies: Seq<RelayReply>) -> Option<Seq<char>>
    decreases replies.len(),
{
    if replies.len() == 0 {
        None
    } else {
        match first_failure(replies.drop_last()) {
            Some(reason) => Some(reason),
            None => match replies.last().events {
                Ok(_) => None,
                Err(reason) => Some(reason@),
            },
        }
    }
}

/// Why a fetch failed, in words: what the first relay that failed reported,
/// or that no relay was asked at all.
pub open spec fn query_failure(replies: Seq<RelayReply>) -> Seq<char> {
    match first_failure(replies) {
        Some(reason) => reason,
        None => "no relay was asked"@,
    }
}

/// At least one relay answered.
pub open spec fn any_answered(replies: Seq<RelayReply>) -> bool {
    exists|i: int| 0 <= i < replies.len() && (#[trigger] replies[i]).events is Ok
}

/// What a fetch with `filter` returns for the replies of the relays: see
/// `merged`; the filter's limit bounds the result.
pub open spec fn fetched(replies: Seq<RelayReply>, filter: FilterData) -> Seq<EventData> {
    merged(answered(replies, filter), filter.limit)
}

/// Whatever the relays sent, every event of the result of a fetch verifies,
/// is written in canonical form and meets the filter.
pub proof fn lemma_fetched_events_are_accepted(replies: Seq<RelayReply>, filter: FilterData)
    ensures
        all_sound(fetched(replies, filter)),
        all_match(fetched(replies, filter), filter),
{
    let batches = answered(replies, filter);
    let out = fetched(replies, filter);
    lemma_answered_is_accepted(replies, filter);
    lemma_merged_from_batches(batches, filter.limit);
    assert forall|i: int| 0 <= i < out.len() implies (#[trigger] out[i]).is_sound()
        && filter.matches(out[i]) by {
        assert(out.contains(out[i]));
        let b = choose|b: int| 0 <= b < batches.len() && (#[trigger] batches[b]).contains(out[i]);
        let k = choose|k: int| 0 <= k < batches[b].len() && batches[b][k] == out[i];
        assert(batches[b][k].is_sound());
    }
}

/// Every batch of `answered` holds only events that the fetch hands on.
proof fn lemma_answered_is_accepted(replies: Seq<RelayReply>, filter: FilterData)
    ensures
        forall|b: int|
            0 <= b < answered(replies, filter).len() ==> all_sound(
                #[trigger] answered(replies, filter)[b],
            ) && all_match(answered(replies, filter)[b], filter),
    decreases replies.len(),
{
    let out = answered(replies, filter);
    if replies.len() > 0 {
        let rest = answered(replies.drop_last(), filter);
        lemma_answered_is_accepted(replies.drop_last(), filter);
        match replies.last().events {
            Ok(events) => {
                let all = events_view(events@);
                let batch = accepted_events(all, filter);
                lemma_kept(all, |e: EventData| e.is_sound() && filter.matches(e));
                assert forall|i: int| 0 <= i < batch.len() implies (#[trigger] batch[i]).is_sound()
                    && filter.matches(batch[i]) by {
                    assert(batch.contains(batch[i]));
                }
                assert(all_sound(batch) && all_match(batch, filter));
                assert forall|b: int| 0 <= b < out.len() implies all_sound(#[trigger] out[b])
                    && all_match(out[b], filter) by {
                    if b < rest.len() {
                        assert(out[b] == rest[b]);
                    } else {
                        assert(out[b] == batch);
                    }
                }
            },
            Err(_) => {
                assert(out == rest);
            },
        }
    }
}

/// The events of a batch that the fetch hands on, copied.
fn copy_accepted_events(events: &Vec<NostrEvent>, filter: &NostrFilter) -> (copy: Vec<NostrEvent>)
    ensures
        events_view(copy@) == accepted_events(events_view(events@), filter@),
{
    let ghost all = events_view(events@);
    let ghost keep = |e: EventData| e.is_sound() && filter@.matches(e);
    let mut copy: Vec<NostrEvent> = Vec::new();
    let mut k: usize = 0;
    proof {
        lemma_kept_ends(all, keep);
        assert(events_view(copy@) =~= Seq::<EventData>::empty());
    }
    while k < events.len()
        invariant
            k <= events.len(),
            all == events_view(events@),
            keep == (|e: EventData| e.is_sound() && filter@.matches(e)),
            events_view(copy@) == kept(all.take(k as int), keep),
        decreases events.len() - k,
    {
        let ghost before = events_view(copy@);
        proof {
            lemma_kept_step(all, keep, k as int);
        }
        if events[k].is_sound() && filter.matches(&events[k]) {
            copy.push(events[k].duplicate());
            assert(events_view(copy@) =~= before.push(events[k as int]@));
        }
        k += 1;
    }
    proof {
        lemma_kept_ends(all, keep);
    }
    copy
}

/// The result of a fetch with `filter`, given what each relay that was
/// asked sent back: the events of the relays that answered, merged as
/// `merged` says and bounded by the filter's limit. An event that does not
/// verify, that is not written in canonical form or that does not meet the
/// filter is dropped before the merge; relays that failed are passed over.
/// The filter is taken as it is written, so it should be in canonical form.
///
/// Fails with `EventQueryFailed` exactly when no relay answered.
pub fn fetch_outcome(replies: &Vec<RelayReply>, filter: &NostrFilter) -> (r: Result<
    Vec<NostrEvent>,
    NostrError,
>)
    ensures
        match r {
            Ok(events) => {
                &&& any_answered(replies@)
                &&& events_view(events@) == fetched(replies@, filter@)
                &&& all_sound(events_view(events@))
                &&& all_match(events_view(events@), filter@)
                &&& ids_distinct(events_view(events@))
                &&& is_newest_first(events_view(events@))
                &&& filter.limit matches Some(n) ==> events.len() <= n
            },
            Err(e) => !any_answered(replies@) && e is EventQueryFailed && e.detail()
                == query_failure(replies@),
        },
{
    let mut batches: Vec<Vec<NostrEvent>> = Vec::new();
    let mut failure: Option<String> = None;
    let mut some_answer = false;
    let mut i: usize = 0;
    assert(replies@.take(0) =~= Seq::<RelayReply>::empty());
    assert(batches_view(batches@) =~= Seq::<Seq<EventData>>::empty());
    while i < replies.len()
        invariant
            i <= replies.len(),
            batches_view(batches@) == answered(replies@.take(i as int), filter@),
            some_answer == any_answered(replies@.take(i as int)),
            failure.deep_view() == first_failure(replies@.take(i as int)),
        decreases replies.len() - i,
    {
        let ghost before = batches_view(batches@);
        let ghost head = replies@.take(i as int);
        let ghost next = replies@.take(i + 1);
        proof {
            assert(next.drop_last() =~= head);
            assert(next.last() == replies@[i as int]);
            if any_answered(head) {
                let k = choose|k: int| 0 <= k < head.len() && (#[trigger] head[k]).events is Ok;
                assert(next[k].events is Ok);
            }
            if any_answered(next) {
                let k = choose|k: int| 0 <= k < next.len() && (#[trigger] next[k]).events is Ok;
                if k < i {
                    assert(head[k].events is Ok);
                }
            }
        }
        match &replies[i].events {
            Ok(events) => {
                let copy = copy_accepted_events(events, filter);
                batches.push(copy);
                assert(batches_view(batches@) =~= before.push(
                    accepted_events(events_view(events@), filter@),
                ));
                some_answer = true;
                assert(next[i as int].events is Ok);
            },
            Err(reason) => {
                if failure.is_none() {
                    failure = Some(reason.clone());
                }
            },
        }
        i += 1;
    }
    assert(replies@.take(replies.len() as int) =~= replies@);
    if some_answer {
        proof {
            lemma_fetched_events_are_accepted(replies@, filter@);
        }
        Ok(merge_events(&batches, filter.limit))
    } else {
        match failure {
            Some(reason) => Err(NostrError::EventQueryFailed(reason)),
            None => Err(NostrError::EventQueryFailed(String::from_str("no relay was asked"))),
        }
    }
}

} // verus!
