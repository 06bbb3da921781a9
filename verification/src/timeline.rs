//! The mathematical model of a room timeline: a sequence of events in
//! ascending order of timestamp in which no identifier occurs twice, and the
//! operations that keep it so.
use crate::event::{EventId, RoomEvent, Timestamp};
use vstd::prelude::*;

verus! {

/// Whether some event of the sequence has this identifier.
pub open spec fn has_id(events: Seq<RoomEvent>, id: EventId) -> bool {
    exists|i: int| 0 <= i < events.len() && (#[trigger] events[i]).id == id
}

/// The identifiers of the events of the sequence.
pub open spec fn id_set(events: Seq<RoomEvent>) -> Set<EventId> {
    Set::new(|id: EventId| has_id(events, id))
}

/// Ascending by timestamp.
pub open spec fn ordered(events: Seq<RoomEvent>) -> bool {
    forall|i: int, j: int|
        0 <= i <= j < events.len() ==> (#[trigger] events[i]).timestamp <= (
        #[trigger] events[j]).timestamp
}

/// No two events share an identifier.
pub open spec fn distinct(events: Seq<RoomEvent>) -> bool {
    forall|i: int, j: int|
        0 <= i < j < events.len() ==> (#[trigger] events[i]).id != (#[trigger] events[j]).id
}

/// Whether some event of the sequence is a room-create state event.
pub open spec fn has_create(events: Seq<RoomEvent>) -> bool {
    exists|i: int| 0 <= i < events.len() && (#[trigger] events[i]).kind.is_create()
}

/// The timestamp of the last event, or the epoch if there is none.
pub open spec fn latest(events: Seq<RoomEvent>) -> Timestamp {
    if events.len() == 0 {
        0
    } else {
        events.last().timestamp
    }
}

/// The test that keeps every event but those with the given identifier.
pub open spec fn other_than(id: EventId) -> spec_fn(RoomEvent) -> bool {
    |event: RoomEvent| event.id != id
}

/// The sequence without the events that have the given identifier.
pub open spec fn without_id(events: Seq<RoomEvent>, id: EventId) -> Seq<RoomEvent> {
    events.filter(other_than(id))
}

/// The sequence without the event that `event` replaces or redacts.
pub open spec fn cleared(events: Seq<RoomEvent>, event: RoomEvent) -> Seq<RoomEvent> {
    match event.target() {
        Some(target) => without_id(events, target),
        None => events,
    }
}

/// Where an event with timestamp `at` goes: behind the last event that is
/// not later than it. In an ordered sequence that is behind every event
/// with the same or an earlier timestamp, and before every later one.
pub open spec fn slot(events: Seq<RoomEvent>, at: Timestamp) -> int
    decreases events.len(),
{
    if events.len() == 0 {
        0
    } else if events.last().timestamp <= at {
        events.len() as int
    } else {
        slot(events.drop_last(), at)
    }
}

/// The sequence with `event` put in its slot.
pub open spec fn placed(events: Seq<RoomEvent>, event: RoomEvent) -> Seq<RoomEvent> {
    events.insert(slot(events, event.timestamp), event)
}

/// What one insertion makes of a timeline: the target of the event's
/// relation leaves, and the event enters unless its identifier is there
/// already.
pub open spec fn pushed(events: Seq<RoomEvent>, event: RoomEvent) -> Seq<RoomEvent> {
    let rest = cleared(events, event);
    if has_id(rest, event.id) {
        rest
    } else {
        placed(rest, event)
    }
}

/// The events of a batch that a timeline takes: those whose identifier is
/// neither in the timeline nor earlier in the batch, in the batch's order.
pub open spec fn fresh(events: Seq<RoomEvent>, batch: Seq<RoomEvent>) -> Seq<RoomEvent>
    decreases batch.len(),
{
    if batch.len() == 0 {
        Seq::empty()
    } else {
        let before = fresh(events, batch.drop_last());
        let event = batch.last();
        if has_id(events, event.id) || has_id(before, event.id) {
            before
        } else {
            before.push(event)
        }
    }
}

/// The sequence without the targets of the relations of a batch.
pub open spec fn cleared_all(events: Seq<RoomEvent>, batch: Seq<RoomEvent>) -> Seq<RoomEvent>
    decreases batch.len(),
{
    if batch.len() == 0 {
        events
    } else {
        cleared(cleared_all(events, batch.drop_last()), batch.last())
    }
}

/// The sequence with every event of a batch put in its slot, in the
/// batch's order: on an ordered sequence, the stable sort of the two
/// together.
pub open spec fn placed_all(events: Seq<RoomEvent>, batch: Seq<RoomEvent>) -> Seq<RoomEvent>
    decreases batch.len(),
{
    if batch.len() == 0 {
        events
    } else {
        placed(placed_all(events, batch.drop_last()), batch.last())
    }
}

/// What a bulk merge makes of a timeline: the batch is reduced to its
/// fresh events, the targets of their relations leave the timeline, and
/// the fresh events enter, each in its slot.
pub open spec fn appended(events: Seq<RoomEvent>, batch: Seq<RoomEvent>) -> Seq<RoomEvent> {
    let taken = fresh(events, batch);
    placed_all(cleared_all(events, taken), taken)
}

/// Whether some event of the sequence replaces or redacts `id`.
pub open spec fn targets(events: Seq<RoomEvent>, id: EventId) -> bool {
    exists|i: int| 0 <= i < events.len() && (#[trigger] events[i]).target() == Some(id)
}

/// A sequence in which no identifier occurs has nothing to lose.
pub proof fn lemma_without_absent(events: Seq<RoomEvent>, id: EventId)
    requires
        !has_id(events, id),
    ensures
        without_id(events, id) == events,
    decreases events.len(),
{
    reveal(Seq::filter);
    if events.len() > 0 {
        let init = events.drop_last();
        assert(!has_id(init, id)) by {
            if has_id(init, id) {
                let i = choose|i: int| 0 <= i < init.len() && (#[trigger] init[i]).id == id;
                assert(events[i].id == id);
            }
        }
        lemma_without_absent(init, id);
        assert(events[events.len() - 1].id != id);
        assert(init.push(events.last()) =~= events);
    }
}

/// Where an identifier occurs once, removing it is removing that position.
pub proof fn lemma_without_at(events: Seq<RoomEvent>, at: int, id: EventId)
    requires
        0 <= at < events.len(),
        events[at].id == id,
        forall|j: int| 0 <= j < events.len() && j != at ==> (#[trigger] events[j]).id != id,
    ensures
        without_id(events, id) == events.remove(at),
    decreases events.len(),
{
    reveal(Seq::filter);
    let init = events.drop_last();
    if at == events.len() - 1 {
        assert(!has_id(init, id)) by {
            if has_id(init, id) {
                let i = choose|i: int| 0 <= i < init.len() && (#[trigger] init[i]).id == id;
                assert(events[i].id == id);
            }
        }
        lemma_without_absent(init, id);
        assert(events.remove(at) =~= init);
    } else {
        assert forall|j: int| 0 <= j < init.len() && j != at implies (#[trigger] init[j]).id
            != id by {
            assert(events[j].id != id);
        }
        lemma_without_at(init, at, id);
        assert(events[events.len() - 1].id != id);
        assert(init.remove(at).push(events.last()) =~= events.remove(at));
    }
}

/// What is left after removing an identifier: the other events, in their order.
pub proof fn lemma_without_id(events: Seq<RoomEvent>, id: EventId)
    requires
        distinct(events),
    ensures
        !has_id(without_id(events, id), id),
        forall|other: EventId|
            other != id ==> (has_id(without_id(events, id), other) <==> has_id(events, other)),
        ordered(events) ==> ordered(without_id(events, id)),
        distinct(without_id(events, id)),
        has_id(events, id) ==> without_id(events, id).len() == events.len() - 1,
        !has_id(events, id) ==> without_id(events, id) == events,
        has_create(without_id(events, id)) ==> has_create(events),
{
    if has_id(events, id) {
        let at = choose|i: int| 0 <= i < events.len() && (#[trigger] events[i]).id == id;
        lemma_without_at(events, at, id);
        let rest = events.remove(at);
        assert forall|k: int| 0 <= k < rest.len() implies (#[trigger] rest[k]) == events[if k
            < at {
            k
        } else {
            k + 1
        }] by {}
        assert(!has_id(rest, id)) by {
            if has_id(rest, id) {
                let k = choose|k: int| 0 <= k < rest.len() && (#[trigger] rest[k]).id == id;
                let j = if k < at { k } else { k + 1 };
                assert(events[j].id == id);
            }
        }
        assert forall|other: EventId| other != id implies (has_id(rest, other) <==> has_id(
            events,
            other,
        )) by {
            if has_id(rest, other) {
                let k = choose|k: int| 0 <= k < rest.len() && (#[trigger] rest[k]).id == other;
                let j = if k < at { k } else { k + 1 };
                assert(events[j].id == other);
            }
            if has_id(events, other) {
                let j = choose|j: int| 0 <= j < events.len() && (#[trigger] events[j]).id
                    == other;
                let k = if j < at { j } else { j - 1 };
                assert(rest[k].id == other);
            }
        }
        if ordered(events) {
            assert forall|a: int, b: int| 0 <= a <= b < rest.len() implies (#[trigger] rest[a]).timestamp
                <= (#[trigger] rest[b]).timestamp by {
                let x = if a < at { a } else { a + 1 };
                let y = if b < at { b } else { b + 1 };
                assert(events[x].timestamp <= events[y].timestamp);
            }
        }
        assert forall|a: int, b: int| 0 <= a < b < rest.len() implies (#[trigger] rest[a]).id != (
        #[trigger] rest[b]).id by {
            let x = if a < at { a } else { a + 1 };
            let y = if b < at { b } else { b + 1 };
            assert(events[x].id != events[y].id);
        }
        if has_create(rest) {
            let k = choose|k: int| 0 <= k < rest.len() && (#[trigger] rest[k]).kind.is_create();
            let j = if k < at { k } else { k + 1 };
            assert(events[j].kind.is_create());
        }
    } else {
        lemma_without_absent(events, id);
    }
}

/// The slot of a timestamp in an ordered sequence parts the events that
/// are not later than it from those that are.
pub proof fn lemma_slot(events: Seq<RoomEvent>, at: Timestamp)
    requires
        ordered(events),
    ensures
        0 <= slot(events, at) <= events.len(),
        forall|i: int| 0 <= i < slot(events, at) ==> (#[trigger] events[i]).timestamp <= at,
        forall|i: int|
            slot(events, at) <= i < events.len() ==> (#[trigger] events[i]).timestamp > at,
    decreases events.len(),
{
    if events.len() > 0 {
        let init = events.drop_last();
        assert forall|i: int, j: int| 0 <= i <= j < init.len() implies (#[trigger] init[i]).timestamp
            <= (#[trigger] init[j]).timestamp by {
            assert(events[i].timestamp <= events[j].timestamp);
        }
        if events.last().timestamp <= at {
            assert forall|i: int| 0 <= i < events.len() implies (#[trigger] events[i]).timestamp
                <= at by {
                assert(events[i].timestamp <= events[events.len() - 1].timestamp);
            }
        } else {
            lemma_slot(init, at);
            assert forall|i: int| 0 <= i < slot(events, at) implies (#[trigger] events[i]).timestamp
                <= at by {
                assert(init[i].timestamp <= at);
            }
            assert forall|i: int| slot(events, at) <= i < events.len() implies (
            #[trigger] events[i]).timestamp > at by {
                if i < init.len() {
                    assert(init[i].timestamp > at);
                }
            }
        }
    }
}

/// What putting an event in its slot makes of an ordered sequence.
pub proof fn lemma_placed(events: Seq<RoomEvent>, event: RoomEvent)
    requires
        ordered(events),
    ensures
        ordered(placed(events, event)),
        placed(events, event).len() == events.len() + 1,
        has_id(placed(events, event), event.id),
        forall|other: EventId|
            other != event.id ==> (has_id(placed(events, event), other) <==> has_id(
                events,
                other,
            )),
        distinct(events) && !has_id(events, event.id) ==> distinct(placed(events, event)),
        has_create(placed(events, event)) <==> has_create(events) || event.kind.is_create(),
{
    lemma_slot(events, event.timestamp);
    let at = slot(events, event.timestamp);
    let next = placed(events, event);
    assert forall|k: int| 0 <= k < next.len() implies (#[trigger] next[k]) == (if k < at {
        events[k]
    } else if k == at {
        event
    } else {
        events[k - 1]
    }) by {}
    assert forall|a: int, b: int| 0 <= a <= b < next.len() implies (#[trigger] next[a]).timestamp
        <= (#[trigger] next[b]).timestamp by {
        if a < at && b < at {
            assert(events[a].timestamp <= events[b].timestamp);
        } else if a < at && b == at {
            assert(events[a].timestamp <= event.timestamp);
        } else if a < at && b > at {
            assert(events[a].timestamp <= events[b - 1].timestamp);
        } else if a == at && b > at {
            assert(events[b - 1].timestamp > event.timestamp);
        } else if a > at {
            assert(events[a - 1].timestamp <= events[b - 1].timestamp);
        }
    }
    assert(next[at].id == event.id);
    assert forall|other: EventId| other != event.id implies (has_id(next, other) <==> has_id(
        events,
        other,
    )) by {
        if has_id(next, other) {
            let k = choose|k: int| 0 <= k < next.len() && (#[trigger] next[k]).id == other;
            let j = if k < at { k } else { k - 1 };
            assert(events[j].id == other);
        }
        if has_id(events, other) {
            let j = choose|j: int| 0 <= j < events.len() && (#[trigger] events[j]).id == other;
            let k = if j < at { j } else { j + 1 };
            assert(next[k].id == other);
        }
    }
    if distinct(events) && !has_id(events, event.id) {
        assert forall|a: int, b: int| 0 <= a < b < next.len() implies (#[trigger] next[a]).id != (
        #[trigger] next[b]).id by {
            let x = if a < at { a } else { a - 1 };
            let y = if b < at { b } else { b - 1 };
            if a == at {
                assert(events[y].id != event.id);
            } else if b == at {
                assert(events[x].id != event.id);
            } else {
                assert(events[x].id != events[y].id);
            }
        }
    }
    if has_create(next) {
        let k = choose|k: int| 0 <= k < next.len() && (#[trigger] next[k]).kind.is_create();
        if k != at {
            let j = if k < at { k } else { k - 1 };
            assert(events[j].kind.is_create());
        }
    }
    if has_create(events) {
        let j = choose|j: int| 0 <= j < events.len() && (#[trigger] events[j]).kind.is_create();
        let k = if j < at { j } else { j + 1 };
        assert(next[k].kind.is_create());
    }
    if event.kind.is_create() {
        assert(next[at].kind.is_create());
    }
}

/// The fresh events of a batch are new to the timeline and to each other.
pub proof fn lemma_fresh(events: Seq<RoomEvent>, batch: Seq<RoomEvent>)
    ensures
        distinct(fresh(events, batch)),
        forall|i: int|
            0 <= i < fresh(events, batch).len() ==> !has_id(
                events,
                (#[trigger] fresh(events, batch)[i]).id,
            ),
        forall|i: int|
            0 <= i < fresh(events, batch).len() ==> exists|j: int|
                0 <= j < batch.len() && batch[j] == #[trigger] fresh(events, batch)[i],
        forall|j: int|
            0 <= j < batch.len() ==> has_id(events, (#[trigger] batch[j]).id) || has_id(
                fresh(events, batch),
                batch[j].id,
            ),
    decreases batch.len(),
{
    if batch.len() > 0 {
        let init = batch.drop_last();
        let before = fresh(events, init);
        let event = batch.last();
        let taken = fresh(events, batch);
        lemma_fresh(events, init);
        assert forall|i: int| 0 <= i < taken.len() implies exists|j: int|
            0 <= j < batch.len() && batch[j] == #[trigger] taken[i] by {
            if i < before.len() {
                let j = choose|j: int| 0 <= j < init.len() && init[j] == before[i];
                assert(batch[j] == taken[i]);
            } else {
                assert(batch[batch.len() - 1] == taken[i]);
            }
        }
        assert forall|j: int| 0 <= j < batch.len() implies has_id(
            events,
            (#[trigger] batch[j]).id,
        ) || has_id(taken, batch[j].id) by {
            if j < init.len() {
                assert(init[j] == batch[j]);
                if has_id(before, batch[j].id) {
                    let k = choose|k: int|
                        0 <= k < before.len() && (#[trigger] before[k]).id == batch[j].id;
                    assert(taken[k].id == batch[j].id);
                }
            } else if !(has_id(events, event.id) || has_id(before, event.id)) {
                assert(taken[before.len() as int].id == event.id);
            }
        }
    }
}

/// What clearing the targets of a batch leaves of a timeline.
pub proof fn lemma_cleared_all(events: Seq<RoomEvent>, batch: Seq<RoomEvent>)
    requires
        ordered(events),
        distinct(events),
    ensures
        ordered(cleared_all(events, batch)),
        distinct(cleared_all(events, batch)),
        forall|id: EventId|
            has_id(cleared_all(events, batch), id) <==> has_id(events, id) && !targets(batch, id),
        has_create(cleared_all(events, batch)) ==> has_create(events),
    decreases batch.len(),
{
    if batch.len() > 0 {
        let init = batch.drop_last();
        let event = batch.last();
        let rest = cleared_all(events, init);
        lemma_cleared_all(events, init);
        assert forall|id: EventId| targets(batch, id) <==> targets(init, id) || event.target()
            == Some(id) by {
            if targets(batch, id) {
                let i = choose|i: int|
                    0 <= i < batch.len() && (#[trigger] batch[i]).target() == Some(id);
                if i < init.len() {
                    assert(init[i].target() == Some(id));
                }
            }
            if targets(init, id) {
                let i = choose|i: int|
                    0 <= i < init.len() && (#[trigger] init[i]).target() == Some(id);
                assert(batch[i].target() == Some(id));
            }
            if event.target() == Some(id) {
                assert(batch[batch.len() - 1].target() == Some(id));
            }
        }
        match event.target() {
            Some(target) => {
                lemma_without_id(rest, target);
            },
            None => {},
        }
    } else {
        assert forall|id: EventId| !targets(batch, id) by {}
    }
}

/// What putting the events of a batch in their slots makes of a timeline.
pub proof fn lemma_placed_all(events: Seq<RoomEvent>, batch: Seq<RoomEvent>)
    requires
        ordered(events),
    ensures
        ordered(placed_all(events, batch)),
        placed_all(events, batch).len() == events.len() + batch.len(),
        forall|id: EventId|
            has_id(placed_all(events, batch), id) <==> has_id(events, id) || has_id(batch, id),
        distinct(events) && distinct(batch) && (forall|i: int|
            0 <= i < batch.len() ==> !has_id(events, (#[trigger] batch[i]).id)) ==> distinct(
            placed_all(events, batch),
        ),
    decreases batch.len(),
{
    if batch.len() > 0 {
        let init = batch.drop_last();
        let event = batch.last();
        let before = placed_all(events, init);
        lemma_placed_all(events, init);
        lemma_placed(before, event);
        assert forall|id: EventId| has_id(batch, id) <==> has_id(init, id) || id == event.id by {
            if has_id(batch, id) {
                let i = choose|i: int| 0 <= i < batch.len() && (#[trigger] batch[i]).id == id;
                if i < init.len() {
                    assert(init[i].id == id);
                }
            }
            if has_id(init, id) {
                let i = choose|i: int| 0 <= i < init.len() && (#[trigger] init[i]).id == id;
                assert(batch[i].id == id);
            }
            if id == event.id {
                assert(batch[batch.len() - 1].id == id);
            }
        }
        if distinct(events) && distinct(batch) && (forall|i: int|
            0 <= i < batch.len() ==> !has_id(events, (#[trigger] batch[i]).id)) {
            assert forall|a: int, b: int| 0 <= a < b < init.len() implies (#[trigger] init[a]).id
                != (#[trigger] init[b]).id by {
                assert(batch[a].id != batch[b].id);
            }
            assert forall|i: int| 0 <= i < init.len() implies !has_id(
                events,
                (#[trigger] init[i]).id,
            ) by {
                assert(init[i] == batch[i]);
            }
            assert(!has_id(events, batch[batch.len() - 1].id));
            assert(!has_id(init, event.id)) by {
                if has_id(init, event.id) {
                    let i = choose|i: int|
                        0 <= i < init.len() && (#[trigger] init[i]).id == event.id;
                    assert(batch[i].id != batch[batch.len() - 1].id);
                }
            }
        }
    } else {
        assert forall|id: EventId| !has_id(batch, id) by {}
    }
}

/// A batch of which the timeline knows every identifier has no fresh event.
pub proof fn lemma_fresh_of_known(events: Seq<RoomEvent>, batch: Seq<RoomEvent>)
    requires
        forall|j: int| 0 <= j < batch.len() ==> has_id(events, (#[trigger] batch[j]).id),
    ensures
        fresh(events, batch) == Seq::<RoomEvent>::empty(),
    decreases batch.len(),
{
    if batch.len() > 0 {
        let init = batch.drop_last();
        assert forall|j: int| 0 <= j < init.len() implies has_id(events, (#[trigger] init[j]).id) by {
            assert(init[j] == batch[j]);
        }
        lemma_fresh_of_known(events, init);
        assert(has_id(events, batch[batch.len() - 1].id));
    }
}

/// A timeline in ascending order ascends at every step.
pub proof fn law_ordered_is_ascending(events: Seq<RoomEvent>)
    requires
        ordered(events),
    ensures
        forall|i: int|
            0 <= i < events.len() - 1 ==> (#[trigger] events[i]).timestamp <= events[i
                + 1].timestamp,
{
}

/// The last activity of a timeline in ascending order is that of its most
/// recent event.
pub proof fn law_latest_is_most_recent(events: Seq<RoomEvent>)
    requires
        ordered(events),
    ensures
        forall|i: int| 0 <= i < events.len() ==> (#[trigger] events[i]).timestamp <= latest(events),
        events.len() > 0 ==> exists|i: int|
            0 <= i < events.len() && (#[trigger] events[i]).timestamp == latest(events),
{
    if events.len() > 0 {
        assert forall|i: int| 0 <= i < events.len() implies (#[trigger] events[i]).timestamp
            <= latest(events) by {
            assert(events[i].timestamp <= events[events.len() - 1].timestamp);
        }
        assert(events[events.len() - 1].timestamp == latest(events));
    }
}

/// Removal, insertion and bulk merge keep a timeline in ascending order and
/// free of duplicates.
pub proof fn law_operations_keep_order(events: Seq<RoomEvent>, event: RoomEvent, batch: Seq<RoomEvent>)
    requires
        ordered(events),
        distinct(events),
    ensures
        ordered(without_id(events, event.id)) && distinct(without_id(events, event.id)),
        ordered(pushed(events, event)) && distinct(pushed(events, event)),
        ordered(appended(events, batch)) && distinct(appended(events, batch)),
{
    lemma_without_id(events, event.id);
    let rest = cleared(events, event);
    match event.target() {
        Some(target) => lemma_without_id(events, target),
        None => {},
    }
    lemma_placed(rest, event);
    let taken = fresh(events, batch);
    lemma_fresh(events, batch);
    lemma_cleared_all(events, taken);
    lemma_placed_all(cleared_all(events, taken), taken);
}

/// What one insertion makes of a timeline in order and without
/// duplicates: a timeline in order and without duplicates that holds the
/// event's identifier.
pub proof fn lemma_pushed(events: Seq<RoomEvent>, event: RoomEvent)
    requires
        ordered(events),
        distinct(events),
    ensures
        ordered(pushed(events, event)),
        distinct(pushed(events, event)),
        has_id(pushed(events, event), event.id),
{
    match event.target() {
        Some(target) => lemma_without_id(events, target),
        None => {},
    }
    lemma_placed(cleared(events, event), event);
}

/// An event that replaces or redacts a stored event takes its place: the
/// target is gone, the event is there, and where the event was new the
/// timeline is as long as before.
pub proof fn law_relation_replaces_target(events: Seq<RoomEvent>, event: RoomEvent, target: EventId)
    requires
        ordered(events),
        distinct(events),
        has_id(events, target),
        event.target() == Some(target),
    ensures
        event.id != target ==> !has_id(pushed(events, event), target),
        has_id(pushed(events, event), event.id),
        !has_id(events, event.id) ==> pushed(events, event).len() == events.len(),
{
    lemma_without_id(events, target);
    lemma_placed(without_id(events, target), event);
}

/// Events that the batch already holds add nothing to its fresh events.
proof fn lemma_fresh_repeated(events: Seq<RoomEvent>, batch: Seq<RoomEvent>, upto: int)
    requires
        0 <= upto <= batch.len(),
    ensures
        fresh(events, batch + batch.take(upto)) == fresh(events, batch),
    decreases upto,
{
    if upto == 0 {
        assert(batch + batch.take(0) =~= batch);
    } else {
        lemma_fresh_repeated(events, batch, upto - 1);
        lemma_fresh(events, batch);
        let longer = batch + batch.take(upto);
        assert(longer.drop_last() =~= batch + batch.take(upto - 1));
        assert(longer.last() == batch[upto - 1]);
    }
}

/// A batch in which every event occurs twice is merged as the batch itself.
pub proof fn law_append_ignores_repetition(events: Seq<RoomEvent>, batch: Seq<RoomEvent>)
    ensures
        appended(events, batch + batch) == appended(events, batch),
{
    lemma_fresh_repeated(events, batch, batch.len() as int);
    assert(batch + batch.take(batch.len() as int) =~= batch + batch);
}

/// Merging a batch a second time changes nothing, unless an event of the
/// batch replaces or redacts another event of the batch.
pub proof fn law_append_is_idempotent(events: Seq<RoomEvent>, batch: Seq<RoomEvent>)
    requires
        ordered(events),
        distinct(events),
        forall|i: int, j: int|
            0 <= i < batch.len() && 0 <= j < batch.len() ==> (#[trigger] batch[i]).target()
                != Some((#[trigger] batch[j]).id),
    ensures
        appended(appended(events, batch), batch) == appended(events, batch),
{
    let taken = fresh(events, batch);
    let rest = cleared_all(events, taken);
    let merged = appended(events, batch);
    lemma_fresh(events, batch);
    lemma_cleared_all(events, taken);
    lemma_placed_all(rest, taken);
    assert forall|j: int| 0 <= j < batch.len() implies has_id(merged, (#[trigger] batch[j]).id) by {
        let id = batch[j].id;
        if has_id(events, id) {
            if targets(taken, id) {
                let i = choose|i: int|
                    0 <= i < taken.len() && (#[trigger] taken[i]).target() == Some(id);
                let k = choose|k: int| 0 <= k < batch.len() && batch[k] == taken[i];
                assert(batch[k].target() != Some(batch[j].id));
            }
            assert(has_id(rest, id));
        }
    }
    lemma_fresh_of_known(merged, batch);
}

} // verus!
