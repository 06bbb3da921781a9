//! The per-room event cache: an ordered, deduplicated timeline with the
//! cursors of the window that has been loaded.
use crate::event::{clone_text, text_of, EventId, RoomEvent, Timestamp};
use crate::timeline::{
    appended, cleared_all, distinct, fresh, has_create, has_id, id_set, latest,
    lemma_fresh, lemma_placed, lemma_without_at, lemma_without_id, ordered, placed, placed_all,
    pushed, slot, without_id,
};
use std::collections::HashSet;
use vstd::prelude::*;

verus! {

/// The mathematical value of a message buffer.
pub struct Timeline {
    /// The events, in their order.
    pub events: Seq<RoomEvent>,
    /// The identifiers the buffer knows.
    pub known_ids: Set<EventId>,
    /// Token for the start of the loaded window.
    pub start: Option<Seq<char>>,
    /// Token for the end of the loaded window.
    pub end: Option<Seq<char>>,
    /// Most recent activity.
    pub updated: Timestamp,
    /// Whether a page of history has been asked for and not yet received.
    pub loading: bool,
}

impl Timeline {
    /// The value of a buffer that holds nothing.
    pub open spec fn empty() -> Timeline {
        Timeline {
            events: Seq::empty(),
            known_ids: Set::empty(),
            start: None,
            end: None,
            updated: 0,
            loading: false,
        }
    }

    /// The invariant of a message buffer: events ascend by timestamp, no
    /// identifier occurs twice, the known identifiers are exactly those of
    /// the events, and the last activity is the timestamp of the last event.
    pub open spec fn wf(self) -> bool {
        &&& ordered(self.events)
        &&& distinct(self.events)
        &&& self.known_ids == id_set(self.events)
        &&& self.updated == latest(self.events)
    }

    /// This value with other events, and what follows from them.
    pub open spec fn with_events(self, events: Seq<RoomEvent>) -> Timeline {
        Timeline { events, known_ids: id_set(events), updated: latest(events), ..self }
    }

    /// Where the room stands in loading its history: a page is awaited;
    /// or the creation of the room is here, and nothing older exists; or a
    /// page can be asked for.
    pub open spec fn backfill_state(self) -> BackfillState {
        if self.loading {
            BackfillState::Loading
        } else if has_create(self.events) {
            BackfillState::Exhausted
        } else {
            BackfillState::Idle
        }
    }

    /// This value while a page of history is awaited.
    pub open spec fn awaiting(self) -> Timeline {
        Timeline { loading: true, ..self }
    }

    /// This value after the request for a page has failed: nothing is
    /// awaited, and the cursors stand as they were.
    pub open spec fn settled(self) -> Timeline {
        Timeline { loading: false, ..self }
    }

    /// This value after a page of history has arrived: its events are
    /// merged, the cursors it brought replace the old ones, and nothing is
    /// awaited.
    pub open spec fn merged(
        self,
        page: Seq<RoomEvent>,
        start: Option<Seq<char>>,
        end: Option<Seq<char>>,
    ) -> Timeline {
        Timeline {
            start: if start is Some {
                start
            } else {
                self.start
            },
            end: if end is Some {
                end
            } else {
                self.end
            },
            loading: false,
            ..self.with_events(appended(self.events, page))
        }
    }
}

/// Where a room stands in loading its history.
#[derive(Debug, Clone, Copy, PartialEq, Eq, Structural)]
pub enum BackfillState {
    /// A page can be asked for.
    Idle,
    /// A page has been asked for and has not arrived.
    Loading,
    /// The beginning of the room's history is here.
    Exhausted,
}

/// Message history/event cache for a given room.
#[derive(Debug)]
pub struct MessageBuffer {
    /// The messages we have stored
    messages: Vec<RoomEvent>,
    /// Set of event id's we have
    known_ids: HashSet<EventId>,
    /// Token for the start of the messages we have
    start: Option<String>,
    /// Token for the end of the messages we have
    end: Option<String>,
    /// Most recent activity in the room
    updated: Timestamp,
    /// Whether we're awaiting for backfill to be received
    loading: bool,
}

impl View for MessageBuffer {
    type V = Timeline;

    closed spec fn view(&self) -> Timeline {
        Timeline {
            events: self.messages@,
            known_ids: self.known_ids@,
            start: text_of(self.start),
            end: text_of(self.end),
            updated: self.updated,
            loading: self.loading,
        }
    }
}

impl MessageBuffer {
    /// The invariant that every operation keeps.
    pub open spec fn wf(&self) -> bool {
        self@.wf()
    }

    /// The invariant but for the last activity, which the operations set last.
    spec fn sound(&self) -> bool {
        &&& ordered(self.messages@)
        &&& distinct(self.messages@)
        &&& self.known_ids@ == id_set(self.messages@)
    }

    /// Whether the buffer holds an event with this identifier.
    pub fn contains(&self, id: EventId) -> (known: bool)
        requires
            self.wf(),
        ensures
            known == has_id(self@.events, id),
            known == self@.known_ids.contains(id),
    {
        self.known_ids.contains(&id)
    }

    /// The number of events.
    pub fn len(&self) -> (len: usize)
        ensures
            len == self@.events.len(),
    {
        self.messages.len()
    }

    /// Whether the buffer holds no event.
    pub fn is_empty(&self) -> (empty: bool)
        ensures
            empty == (self@.events.len() == 0),
    {
        self.messages.len() == 0
    }

    /// The event at a position of the timeline, if there is one.
    pub fn get(&self, index: usize) -> (event: Option<&RoomEvent>)
        ensures
            index < self@.events.len() ==> event == Some(&self@.events[index as int]),
            index >= self@.events.len() ==> event is None,
    {
        if index < self.messages.len() {
            Some(&self.messages[index])
        } else {
            None
        }
    }

    /// Most recent activity in the room: the timestamp of the last event,
    /// or the epoch while there is none.
    pub fn updated(&self) -> (updated: Timestamp)
        ensures
            updated == self@.updated,
    {
        self.updated
    }

    /// Whether a page of history is awaited.
    pub fn is_loading(&self) -> (loading: bool)
        ensures
            loading == self@.loading,
    {
        self.loading
    }

    /// Token for the start of the loaded window.
    pub fn start(&self) -> (cursor: Option<String>)
        ensures
            text_of(cursor) == self@.start,
    {
        clone_text(&self.start)
    }

    /// Token for the end of the loaded window: where the next page of
    /// older history begins.
    pub fn end(&self) -> (cursor: Option<String>)
        ensures
            text_of(cursor) == self@.end,
    {
        clone_text(&self.end)
    }

    /// Where the room stands in loading its history.
    pub fn backfill_state(&self) -> (state: BackfillState)
        ensures
            state == self@.backfill_state(),
    {
        if self.loading {
            BackfillState::Loading
        } else if self.has_beginning() {
            BackfillState::Exhausted
        } else {
            BackfillState::Idle
        }
    }

    /// Marks that a page of history is awaited, and gives the cursor from
    /// which to ask for it, if the buffer has one.
    pub fn start_backfill(&mut self) -> (cursor: Option<String>)
        ensures
            final(self)@ == old(self)@.awaiting(),
            text_of(cursor) == old(self)@.end,
    {
        self.loading = true;
        clone_text(&self.end)
    }

    /// Marks that the request for a page has failed.
    pub fn fail_backfill(&mut self)
        ensures
            final(self)@ == old(self)@.settled(),
    {
        self.loading = false;
    }

    /// Merges a page of history and takes over the cursors it brought.
    pub fn finish_backfill(
        &mut self,
        events: Vec<RoomEvent>,
        start: Option<String>,
        end: Option<String>,
    )
        requires
            old(self).wf(),
        ensures
            final(self).wf(),
            final(self)@ == old(self)@.merged(events@, text_of(start), text_of(end)),
    {
        self.loading = false;
        if start.is_some() {
            self.start = start;
        }
        if end.is_some() {
            self.end = end;
        }
        self.append(events);
    }

    /// Where the event with this identifier stands.
    fn position(&self, id: EventId) -> (at: usize)
        requires
            has_id(self.messages@, id),
        ensures
            at < self.messages@.len(),
            self.messages@[at as int].id == id,
    {
        let mut at: usize = 0;
        while at < self.messages.len() && self.messages[at].id != id
            invariant
                at <= self.messages@.len(),
                has_id(self.messages@, id),
                forall|j: int| 0 <= j < at ==> (#[trigger] self.messages@[j]).id != id,
            decreases self.messages@.len() - at,
        {
            at += 1;
        }
        at
    }

    /// Where an event with this timestamp goes.
    fn slot_of(&self, time: Timestamp) -> (at: usize)
        ensures
            at == slot(self.messages@, time),
            at <= self.messages@.len(),
    {
        let mut at: usize = self.messages.len();
        assert(self.messages@.take(at as int) =~= self.messages@);
        while at > 0 && self.messages[at - 1].timestamp > time
            invariant
                at <= self.messages@.len(),
                slot(self.messages@, time) == slot(self.messages@.take(at as int), time),
            decreases at,
        {
            assert(self.messages@.take(at as int).drop_last() =~= self.messages@.take(
                at as int - 1,
            ));
            at -= 1;
        }
        at
    }

    /// Gets the send time of the most recently sent message
    fn update_time(&mut self)
        ensures
            final(self).updated == latest(old(self).messages@),
            final(self).messages == old(self).messages,
            final(self).known_ids == old(self).known_ids,
            final(self).start == old(self).start,
            final(self).end == old(self).end,
            final(self).loading == old(self).loading,
    {
        let len = self.messages.len();
        self.updated = if len == 0 {
            0
        } else {
            self.messages[len - 1].timestamp
        };
    }

    /// Takes the event with this identifier out, if it is there.
    fn take_out(&mut self, id: EventId)
        requires
            old(self).sound(),
        ensures
            final(self).sound(),
            final(self).messages@ == without_id(old(self).messages@, id),
            final(self).start == old(self).start,
            final(self).end == old(self).end,
            final(self).loading == old(self).loading,
    {
        proof {
            lemma_without_id(self.messages@, id);
        }
        if self.known_ids.contains(&id) {
            let at = self.position(id);
            proof {
                lemma_without_at(self.messages@, at as int, id);
            }
            self.messages.remove(at);
            self.known_ids.remove(&id);
            assert(self.known_ids@ =~= id_set(self.messages@));
        }
    }

    /// Puts an event whose identifier is not known in its slot.
    fn put_in(&mut self, event: RoomEvent)
        requires
            old(self).sound(),
            !has_id(old(self).messages@, event.id),
        ensures
            final(self).sound(),
            final(self).messages@ == placed(old(self).messages@, event),
            final(self).start == old(self).start,
            final(self).end == old(self).end,
            final(self).loading == old(self).loading,
    {
        proof {
            lemma_placed(self.messages@, event);
        }
        let at = self.slot_of(event.timestamp);
        self.known_ids.insert(event.id);
        self.messages.insert(at, event);
        assert(self.known_ids@ =~= id_set(self.messages@));
    }

    /// Deletes the event with this identifier; nothing changes if there is none.
    pub fn remove(&mut self, id: EventId)
        requires
            old(self).wf(),
        ensures
            final(self).wf(),
            final(self)@ == old(self)@.with_events(without_id(old(self)@.events, id)),
    {
        self.take_out(id);
        self.update_time();
    }

    /// Add a message to the buffer.
    ///
    /// The event that this one replaces or redacts leaves the buffer, if it
    /// is there. The event enters at its place in the order of timestamps,
    /// behind the events of the same timestamp, unless the buffer already
    /// holds an event with its identifier.
    pub fn push(&mut self, event: RoomEvent)
        requires
            old(self).wf(),
        ensures
            final(self).wf(),
            final(self)@ == old(self)@.with_events(pushed(old(self)@.events, event)),
    {
        match event.relation_target() {
            Some(target) => self.take_out(target),
            None => {},
        }
        if !self.known_ids.contains(&event.id) {
            self.put_in(event);
        }
        self.update_time();
    }

    /// The events of a batch that the buffer takes: those whose identifier
    /// is neither known nor earlier in the batch.
    fn select_fresh(&self, events: Vec<RoomEvent>) -> (taken: Vec<RoomEvent>)
        requires
            self.sound(),
        ensures
            taken@ == fresh(self.messages@, events@),
    {
        let mut taken: Vec<RoomEvent> = Vec::new();
        let mut taken_ids: HashSet<EventId> = HashSet::new();
        assert(taken_ids@ =~= id_set(taken@));
        for event in it: events
            invariant
                self.sound(),
                it.seq() == events@,
                taken@ == fresh(self.messages@, events@.take(it.index() as int)),
                taken_ids@ == id_set(taken@),
        {
            proof {
                let upto = events@.take(it.index() + 1);
                assert(upto.drop_last() =~= events@.take(it.index() as int));
                assert(upto.last() == event);
            }
            if !self.known_ids.contains(&event.id) && !taken_ids.contains(&event.id) {
                let ghost before = taken@;
                taken_ids.insert(event.id);
                taken.push(event);
                assert(taken_ids@ =~= id_set(taken@)) by {
                    assert forall|id: EventId| has_id(taken@, id) <==> has_id(before, id) || id
                        == event.id by {
                        if has_id(taken@, id) {
                            let k = choose|k: int|
                                0 <= k < taken@.len() && (#[trigger] taken@[k]).id == id;
                            if k < before.len() {
                                assert(before[k].id == id);
                            }
                        }
                        if has_id(before, id) {
                            let k = choose|k: int|
                                0 <= k < before.len() && (#[trigger] before[k]).id == id;
                            assert(taken@[k].id == id);
                        }
                        if id == event.id {
                            assert(taken@[before.len() as int].id == id);
                        }
                    }
                }
            }
        }
        assert(events@.take(events@.len() as int) =~= events@);
        taken
    }

    /// Adds several messages to the buffer
    ///
    /// The batch is reduced to its fresh events: those whose identifier is
    /// neither known to the buffer nor earlier in the batch. The events that
    /// the fresh ones replace or redact leave the buffer, and the fresh
    /// events enter, each at its place in the order of timestamps.
    pub fn append(&mut self, events: Vec<RoomEvent>)
        requires
            old(self).wf(),
        ensures
            final(self).wf(),
            final(self)@ == old(self)@.with_events(appended(old(self)@.events, events@)),
    {
        let taken = self.select_fresh(events);
        proof {
            lemma_fresh(self.messages@, events@);
        }
        let mut at: usize = 0;
        assert(taken@.take(0) =~= Seq::<RoomEvent>::empty());
        while at < taken.len()
            invariant
                at <= taken@.len(),
                self.sound(),
                self.messages@ == cleared_all(old(self).messages@, taken@.take(at as int)),
                forall|id: EventId| has_id(self.messages@, id) ==> has_id(old(self).messages@, id),
                self.start == old(self).start,
                self.end == old(self).end,
                self.loading == old(self).loading,
            decreases taken@.len() - at,
        {
            proof {
                assert(taken@.take(at + 1).drop_last() =~= taken@.take(at as int));
                assert(taken@.take(at + 1).last() == taken@[at as int]);
                lemma_without_id(self.messages@, taken@[at as int].id);
                match taken@[at as int].target() {
                    Some(target) => lemma_without_id(self.messages@, target),
                    None => {},
                }
            }
            match taken[at].relation_target() {
                Some(target) => self.take_out(target),
                None => {},
            }
            at += 1;
        }
        assert(taken@.take(taken@.len() as int) =~= taken@);
        let ghost base = self.messages@;
        for event in it: taken
            invariant
                it.seq() == taken@,
                distinct(taken@),
                self.sound(),
                self.messages@ == placed_all(base, taken@.take(it.index() as int)),
                forall|j: int|
                    it.index() <= j < taken@.len() ==> !has_id(
                        self.messages@,
                        (#[trigger] taken@[j]).id,
                    ),
                self.start == old(self).start,
                self.end == old(self).end,
                self.loading == old(self).loading,
        {
            proof {
                let upto = taken@.take(it.index() + 1);
                assert(upto.drop_last() =~= taken@.take(it.index() as int));
                assert(upto.last() == event);
                assert(taken@[it.index() as int] == event);
                lemma_placed(self.messages@, event);
                assert forall|j: int| it.index() + 1 <= j < taken@.len() implies !has_id(
                    placed(self.messages@, event),
                    (#[trigger] taken@[j]).id,
                ) by {
                    assert(taken@[it.index() as int].id != taken@[j].id);
                }
            }
            self.put_in(event);
        }
        self.update_time();
    }

    /// Whether the message buffer has the room creation event
    pub fn has_beginning(&self) -> (beginning: bool)
        ensures
            beginning == has_create(self@.events),
    {
        let mut at: usize = 0;
        while at < self.messages.len()
            invariant
                at <= self.messages@.len(),
                forall|j: int| 0 <= j < at ==> !(#[trigger] self.messages@[j]).kind.is_create(),
            decreases self.messages@.len() - at,
        {
            if self.messages[at].is_room_create() {
                return true;
            }
            at += 1;
        }
        false
    }
}

impl Clone for MessageBuffer {
    fn clone(&self) -> (copy: Self)
        ensures
            self.wf() ==> copy.wf() && copy@ == self@,
    {
        let messages = self.messages.clone();
        assert(messages@ =~= self.messages@);
        let mut known_ids: HashSet<EventId> = HashSet::new();
        let mut at: usize = 0;
        assert(known_ids@ =~= id_set(messages@.take(0)));
        while at < messages.len()
            invariant
                at <= messages@.len(),
                known_ids@ == id_set(messages@.take(at as int)),
            decreases messages@.len() - at,
        {
            known_ids.insert(messages[at].id);
            proof {
                let before = messages@.take(at as int);
                let upto = messages@.take(at + 1);
                assert forall|id: EventId| has_id(upto, id) <==> has_id(before, id) || id
                    == messages@[at as int].id by {
                    if has_id(upto, id) {
                        let k = choose|k: int| 0 <= k < upto.len() && (#[trigger] upto[k]).id == id;
                        if k < at {
                            assert(before[k].id == id);
                        }
                    }
                    if has_id(before, id) {
                        let k = choose|k: int|
                            0 <= k < before.len() && (#[trigger] before[k]).id == id;
                        assert(upto[k].id == id);
                    }
                    if id == messages@[at as int].id {
                        assert(upto[at as int].id == id);
                    }
                }
                assert(known_ids@ =~= id_set(upto));
            }
            at += 1;
        }
        assert(messages@.take(messages@.len() as int) =~= messages@);
        MessageBuffer {
            messages,
            known_ids,
            start: clone_text(&self.start),
            end: clone_text(&self.end),
            updated: self.updated,
            loading: self.loading,
        }
    }
}

impl Default for MessageBuffer {
    fn default() -> (buffer: Self)
        ensures
            buffer.wf(),
            buffer@ == Timeline::empty(),
    {
        let buffer = MessageBuffer {
            messages: Vec::new(),
            known_ids: HashSet::new(),
            start: None,
            end: None,
            updated: 0,
            loading: false,
        };
        assert(buffer.known_ids@ =~= id_set(buffer.messages@));
        buffer
    }
}

} // verus!
