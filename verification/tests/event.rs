use retrix::{
    AnyMessageEventExt, AnyRoomEventExt, AnySyncRoomEventExt, EventKind, MessageEvent, Relation,
    RoomEvent, StateEvent, SyncRoomEvent,
};

#[test]
fn a_room_event_gives_its_id_time_and_image() {
    let event = RoomEvent {
        id: 3,
        room: 4,
        timestamp: 99,
        kind: EventKind::Message(MessageEvent { relation: None, image: Some("mxc://x/y".to_string()) }),
    };
    assert_eq!(event.event_id(), 3);
    assert_eq!(event.origin_server_ts(), 99);
    assert_eq!(event.image_url(), Some("mxc://x/y".to_string()));
    let state = RoomEvent { id: 5, room: 4, timestamp: 1, kind: EventKind::State(StateEvent::RoomCreate) };
    assert_eq!(state.image_url(), None);
    assert!(state.is_room_create());
    assert!(!event.is_room_create());
}

#[test]
fn a_message_gives_its_image() {
    let plain = MessageEvent { relation: None, image: None };
    assert_eq!(plain.image_url(), None);
    let picture = MessageEvent { relation: None, image: Some("mxc://x/y".to_string()) };
    assert_eq!(picture.image_url(), Some("mxc://x/y".to_string()));
}

#[test]
fn the_target_of_a_relation_is_told() {
    let with = |relation| RoomEvent {
        id: 1,
        room: 1,
        timestamp: 1,
        kind: EventKind::Message(MessageEvent { relation, image: None }),
    };
    assert_eq!(with(None).relation_target(), None);
    assert_eq!(with(Some(Relation::Replacement(8))).relation_target(), Some(8));
    assert_eq!(with(Some(Relation::Redaction(9))).relation_target(), Some(9));
    let redacted = RoomEvent { id: 1, room: 1, timestamp: 1, kind: EventKind::RedactedMessage };
    assert_eq!(redacted.relation_target(), None);
}

#[test]
fn a_sync_event_is_completed_with_its_room() {
    let event = SyncRoomEvent { id: 3, timestamp: 99, kind: EventKind::RedactedState };
    let full = event.clone().into_full_event(12);
    assert_eq!(full.id, 3);
    assert_eq!(full.room, 12);
    assert_eq!(full.timestamp, 99);
    assert!(matches!(full.kind, EventKind::RedactedState));
}
