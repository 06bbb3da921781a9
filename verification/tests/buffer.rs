use retrix::{
    BackfillState, EventId, EventKind, MessageBuffer, MessageEvent, Relation, RoomEvent,
    StateEvent, Timestamp,
};

fn message(id: EventId, timestamp: Timestamp) -> RoomEvent {
    RoomEvent {
        id,
        room: 1,
        timestamp,
        kind: EventKind::Message(MessageEvent { relation: None, image: None }),
    }
}

fn related(id: EventId, timestamp: Timestamp, relation: Relation) -> RoomEvent {
    RoomEvent {
        id,
        room: 1,
        timestamp,
        kind: EventKind::Message(MessageEvent { relation: Some(relation), image: None }),
    }
}

fn create(id: EventId, timestamp: Timestamp) -> RoomEvent {
    RoomEvent { id, room: 1, timestamp, kind: EventKind::State(StateEvent::RoomCreate) }
}

fn ids(buffer: &MessageBuffer) -> Vec<EventId> {
    let mut ids = Vec::new();
    let mut at = 0;
    while let Some(event) = buffer.get(at) {
        ids.push(event.id);
        at += 1;
    }
    ids
}

fn ascending(buffer: &MessageBuffer) -> bool {
    let mut at = 0;
    while at + 1 < buffer.len() {
        if buffer.get(at).unwrap().timestamp > buffer.get(at + 1).unwrap().timestamp {
            return false;
        }
        at += 1;
    }
    true
}

fn mirrors(buffer: &MessageBuffer, candidates: &[EventId]) -> bool {
    let present = ids(buffer);
    candidates.iter().all(|id| buffer.contains(*id) == present.contains(id))
}

#[test]
fn a_new_buffer_is_empty() {
    let buffer = MessageBuffer::default();
    assert_eq!(buffer.len(), 0);
    assert!(buffer.is_empty());
    assert_eq!(buffer.updated(), 0);
    assert!(!buffer.is_loading());
    assert_eq!(buffer.start(), None);
    assert_eq!(buffer.end(), None);
    assert!(!buffer.has_beginning());
    assert!(buffer.get(0).is_none());
    assert_eq!(buffer.backfill_state(), BackfillState::Idle);
}

#[test]
fn push_orders_by_timestamp() {
    let mut buffer = MessageBuffer::default();
    buffer.push(message(1, 5));
    buffer.push(message(2, 3));
    buffer.push(message(3, 10));
    assert_eq!(ids(&buffer), vec![2, 1, 3]);
    assert_eq!(buffer.updated(), 10);
    assert!(ascending(&buffer));
}

#[test]
fn push_keeps_arrival_order_among_equal_timestamps() {
    let mut buffer = MessageBuffer::default();
    buffer.push(message(1, 7));
    buffer.push(message(2, 7));
    buffer.push(message(3, 6));
    buffer.push(message(4, 7));
    assert_eq!(ids(&buffer), vec![3, 1, 2, 4]);
}

#[test]
fn push_of_a_known_id_makes_no_duplicate() {
    let mut buffer = MessageBuffer::default();
    buffer.push(message(1, 5));
    buffer.push(message(1, 9));
    assert_eq!(ids(&buffer), vec![1]);
    assert_eq!(buffer.get(0).unwrap().timestamp, 5);
    assert_eq!(buffer.updated(), 5);
}

#[test]
fn push_of_a_known_edit_still_removes_its_target() {
    let mut buffer = MessageBuffer::default();
    buffer.push(related(2, 8, Relation::Replacement(1)));
    buffer.push(message(1, 5));
    assert_eq!(ids(&buffer), vec![1, 2]);
    buffer.push(related(2, 8, Relation::Replacement(1)));
    assert_eq!(ids(&buffer), vec![2]);
}

#[test]
fn append_of_known_events_changes_nothing() {
    let mut buffer = MessageBuffer::default();
    buffer.push(message(1, 5));
    buffer.append(vec![message(1, 5), message(1, 5)]);
    assert_eq!(ids(&buffer), vec![1]);
    assert_eq!(buffer.len(), 1);
}

#[test]
fn append_takes_a_repeated_event_once() {
    let mut buffer = MessageBuffer::default();
    buffer.append(vec![message(4, 2), message(4, 2), message(5, 1)]);
    assert_eq!(ids(&buffer), vec![5, 4]);
}

#[test]
fn append_twice_is_append_once() {
    let batch = || vec![message(3, 30), message(1, 10), message(2, 20), message(1, 10)];
    let mut once = MessageBuffer::default();
    once.push(message(9, 15));
    once.append(batch());
    let mut twice = MessageBuffer::default();
    twice.push(message(9, 15));
    twice.append(batch());
    twice.append(batch());
    assert_eq!(ids(&once), vec![1, 9, 2, 3]);
    assert_eq!(ids(&twice), ids(&once));
    let mut doubled = MessageBuffer::default();
    doubled.push(message(9, 15));
    let mut both = batch();
    both.extend(batch());
    doubled.append(both);
    assert_eq!(ids(&doubled), ids(&once));
}

#[test]
fn append_again_brings_back_an_event_that_the_batch_itself_replaced() {
    let batch = || vec![message(1, 10), related(2, 20, Relation::Replacement(1))];
    let mut buffer = MessageBuffer::default();
    buffer.push(message(1, 10));
    buffer.append(batch());
    assert_eq!(ids(&buffer), vec![2]);
    buffer.append(batch());
    assert_eq!(ids(&buffer), vec![1, 2]);
}

#[test]
fn append_sorts_a_page_that_comes_newest_first() {
    let mut buffer = MessageBuffer::default();
    buffer.push(message(10, 100));
    buffer.push(message(11, 110));
    buffer.append(vec![message(9, 90), message(8, 80), message(7, 70), message(10, 100)]);
    assert_eq!(ids(&buffer), vec![7, 8, 9, 10, 11]);
    assert_eq!(buffer.updated(), 110);
    assert!(ascending(&buffer));
}

#[test]
fn append_removes_the_targets_of_fresh_events_only() {
    let mut buffer = MessageBuffer::default();
    buffer.push(message(1, 10));
    buffer.push(message(2, 20));
    buffer.push(related(3, 30, Relation::Redaction(99)));
    buffer.append(vec![
        related(3, 30, Relation::Redaction(2)),
        related(4, 40, Relation::Replacement(1)),
    ]);
    assert_eq!(ids(&buffer), vec![2, 3, 4]);
}

#[test]
fn append_keeps_a_target_that_arrives_with_its_edit() {
    let mut buffer = MessageBuffer::default();
    buffer.append(vec![related(2, 20, Relation::Replacement(1)), message(1, 10)]);
    assert_eq!(ids(&buffer), vec![1, 2]);
    assert!(mirrors(&buffer, &[1, 2, 3]));
}

#[test]
fn edit_replaces_its_target() {
    let mut buffer = MessageBuffer::default();
    buffer.push(message(1, 5));
    buffer.push(message(7, 6));
    let before = buffer.len();
    buffer.push(related(2, 9, Relation::Replacement(1)));
    assert!(!buffer.contains(1));
    assert!(buffer.contains(2));
    assert_eq!(ids(&buffer), vec![7, 2]);
    assert_eq!(buffer.len(), before);
}

#[test]
fn redaction_removes_its_target() {
    let mut buffer = MessageBuffer::default();
    buffer.push(message(1, 5));
    buffer.push(related(2, 9, Relation::Redaction(1)));
    assert!(!buffer.contains(1));
    assert!(buffer.contains(2));
    assert_eq!(ids(&buffer), vec![2]);
}

#[test]
fn edit_of_an_unknown_target_is_stored() {
    let mut buffer = MessageBuffer::default();
    buffer.push(related(2, 9, Relation::Replacement(1)));
    assert_eq!(ids(&buffer), vec![2]);
    buffer.push(message(1, 5));
    assert_eq!(ids(&buffer), vec![1, 2]);
}

#[test]
fn remove_deletes_the_event_and_its_id() {
    let mut buffer = MessageBuffer::default();
    buffer.push(message(1, 5));
    buffer.push(message(2, 6));
    buffer.remove(2);
    assert_eq!(ids(&buffer), vec![1]);
    assert!(!buffer.contains(2));
    assert_eq!(buffer.updated(), 5);
    buffer.remove(2);
    assert_eq!(ids(&buffer), vec![1]);
    buffer.remove(1);
    assert!(buffer.is_empty());
    assert_eq!(buffer.updated(), 0);
}

#[test]
fn known_ids_mirror_the_events() {
    let mut buffer = MessageBuffer::default();
    let all: Vec<EventId> = (0..12).collect();
    assert!(mirrors(&buffer, &all));
    buffer.push(message(1, 5));
    buffer.push(related(2, 4, Relation::Replacement(1)));
    assert!(mirrors(&buffer, &all));
    buffer.append(vec![message(3, 1), message(4, 9), related(5, 2, Relation::Redaction(4))]);
    assert!(mirrors(&buffer, &all));
    buffer.append(vec![related(6, 3, Relation::Redaction(3)), message(6, 3)]);
    assert!(mirrors(&buffer, &all));
    buffer.remove(2);
    assert!(mirrors(&buffer, &all));
    assert!(ascending(&buffer));
}

#[test]
fn has_beginning_tells_the_create_event() {
    let mut buffer = MessageBuffer::default();
    buffer.push(message(1, 5));
    assert!(!buffer.has_beginning());
    buffer.push(create(2, 1));
    assert!(buffer.has_beginning());
    assert_eq!(buffer.backfill_state(), BackfillState::Exhausted);
    buffer.remove(2);
    assert!(!buffer.has_beginning());
    buffer.push(RoomEvent { id: 3, room: 1, timestamp: 2, kind: EventKind::RedactedState });
    buffer.push(RoomEvent { id: 4, room: 1, timestamp: 2, kind: EventKind::State(StateEvent::RoomTombstone) });
    assert!(!buffer.has_beginning());
}

#[test]
fn backfill_marks_loading_and_takes_over_cursors() {
    let mut buffer = MessageBuffer::default();
    assert_eq!(buffer.start_backfill(), None);
    assert!(buffer.is_loading());
    assert_eq!(buffer.backfill_state(), BackfillState::Loading);
    buffer.finish_backfill(vec![message(2, 2), message(1, 1)], Some("s1".to_string()), Some("e1".to_string()));
    assert!(!buffer.is_loading());
    assert_eq!(ids(&buffer), vec![1, 2]);
    assert_eq!(buffer.start(), Some("s1".to_string()));
    assert_eq!(buffer.end(), Some("e1".to_string()));
    assert_eq!(buffer.start_backfill(), Some("e1".to_string()));
    buffer.finish_backfill(vec![], None, Some("e2".to_string()));
    assert_eq!(buffer.start(), Some("s1".to_string()));
    assert_eq!(buffer.end(), Some("e2".to_string()));
}

#[test]
fn failed_backfill_keeps_the_cursor() {
    let mut buffer = MessageBuffer::default();
    buffer.finish_backfill(vec![message(1, 1)], None, Some("e1".to_string()));
    assert_eq!(buffer.start_backfill(), Some("e1".to_string()));
    buffer.fail_backfill();
    assert!(!buffer.is_loading());
    assert_eq!(buffer.end(), Some("e1".to_string()));
    assert_eq!(ids(&buffer), vec![1]);
    assert_eq!(buffer.start_backfill(), Some("e1".to_string()));
}

#[test]
fn loading_comes_before_exhausted() {
    let mut buffer = MessageBuffer::default();
    buffer.push(create(1, 1));
    buffer.start_backfill();
    assert_eq!(buffer.backfill_state(), BackfillState::Loading);
    buffer.fail_backfill();
    assert_eq!(buffer.backfill_state(), BackfillState::Exhausted);
}

#[test]
fn a_cloned_buffer_holds_the_same() {
    let mut buffer = MessageBuffer::default();
    buffer.finish_backfill(vec![message(2, 2), message(1, 1)], Some("s".to_string()), Some("e".to_string()));
    buffer.start_backfill();
    let copy = buffer.clone();
    assert_eq!(ids(&copy), vec![1, 2]);
    assert!(copy.contains(1) && copy.contains(2) && !copy.contains(3));
    assert_eq!(copy.start(), Some("s".to_string()));
    assert_eq!(copy.end(), Some("e".to_string()));
    assert_eq!(copy.updated(), 2);
    assert!(copy.is_loading());
}
