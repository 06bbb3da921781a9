use retrix::room::fallback_room_name;
use retrix::{EventKind, MessageEvent, RoomEntry, RoomEvent, RoomSnapshot, StateEvent};

fn snapshot() -> RoomSnapshot {
    RoomSnapshot {
        direct_target: Some("@bob:example.org".to_string()),
        display_name: "Bob".to_string(),
        topic: Some("Talk".to_string()),
        canonical_alias: Some("#bob:example.org".to_string()),
        avatar_url: Some("mxc://example.org/av".to_string()),
        last_prev_batch: Some("prev1".to_string()),
    }
}

fn state(id: u64, room: u64, timestamp: u64, content: StateEvent) -> RoomEvent {
    RoomEvent { id, room, timestamp, kind: EventKind::State(content) }
}

#[test]
fn a_default_entry_is_empty() {
    let entry = RoomEntry::default();
    assert_eq!(entry.name, "");
    assert_eq!(entry.topic, "");
    assert_eq!(entry.alias, None);
    assert_eq!(entry.display_name, None);
    assert_eq!(entry.avatar, None);
    assert_eq!(entry.direct, None);
    assert_eq!(entry.prev_batch, None);
    assert!(entry.messages.is_empty());
}

#[test]
fn from_sdk_takes_the_snapshot() {
    let entry = RoomEntry::from_sdk(&snapshot());
    assert_eq!(entry.name, "Bob");
    assert_eq!(entry.topic, "Talk");
    assert_eq!(entry.alias, Some("#bob:example.org".to_string()));
    assert_eq!(entry.display_name, None);
    assert_eq!(entry.avatar, Some("mxc://example.org/av".to_string()));
    assert_eq!(entry.direct, Some("@bob:example.org".to_string()));
    assert_eq!(entry.prev_batch, Some("prev1".to_string()));
    assert!(entry.messages.is_empty());
}

#[test]
fn from_sdk_has_an_empty_topic_where_the_room_has_none() {
    let entry = RoomEntry::from_sdk(&RoomSnapshot { topic: None, ..snapshot() });
    assert_eq!(entry.topic, "");
}

#[test]
fn the_name_is_derived_in_order() {
    let mut entry = RoomEntry::default();
    assert_eq!(entry.derive_name(42), "Room 42");
    entry.alias = Some("#a:x".to_string());
    assert_eq!(entry.derive_name(42), "#a:x");
    entry.direct = Some("@b:x".to_string());
    assert_eq!(entry.derive_name(42), "@b:x");
    entry.display_name = Some("Given".to_string());
    assert_eq!(entry.derive_name(42), "Given");
}

#[test]
fn the_fallback_name_shows_the_handle_in_decimal() {
    assert_eq!(fallback_room_name(0), "Room 0");
    assert_eq!(fallback_room_name(7), "Room 7");
    assert_eq!(fallback_room_name(10), "Room 10");
    assert_eq!(fallback_room_name(1234567890), "Room 1234567890");
    assert_eq!(fallback_room_name(u64::MAX), "Room 18446744073709551615");
}

#[test]
fn a_name_event_sets_the_name() {
    let mut entry = RoomEntry::from_sdk(&snapshot());
    entry.receive(state(1, 5, 10, StateEvent::RoomName { name: Some("Plans".to_string()) }));
    assert_eq!(entry.display_name, Some("Plans".to_string()));
    assert_eq!(entry.name, "Plans");
    assert_eq!(entry.messages.len(), 1);
    entry.receive(state(2, 5, 11, StateEvent::RoomName { name: None }));
    assert_eq!(entry.display_name, None);
    assert_eq!(entry.name, "@bob:example.org");
    assert_eq!(entry.messages.len(), 2);
}

#[test]
fn a_topic_event_sets_the_topic() {
    let mut entry = RoomEntry::default();
    entry.receive(state(1, 5, 10, StateEvent::RoomTopic { topic: "Tea".to_string() }));
    assert_eq!(entry.topic, "Tea");
    assert_eq!(entry.name, "");
    assert_eq!(entry.messages.len(), 1);
}

#[test]
fn an_alias_event_names_a_room_without_a_given_name() {
    let mut entry = RoomEntry::default();
    entry.receive(state(1, 5, 10, StateEvent::RoomCanonicalAlias { alias: Some("#tea:x".to_string()) }));
    assert_eq!(entry.alias, Some("#tea:x".to_string()));
    assert_eq!(entry.name, "#tea:x");
    entry.receive(state(2, 5, 11, StateEvent::RoomCanonicalAlias { alias: None }));
    assert_eq!(entry.alias, None);
    assert_eq!(entry.name, "Room 5");
}

#[test]
fn an_alias_event_leaves_a_given_name() {
    let mut entry = RoomEntry::default();
    entry.receive(state(1, 5, 10, StateEvent::RoomName { name: Some("Plans".to_string()) }));
    entry.receive(state(2, 5, 11, StateEvent::RoomCanonicalAlias { alias: Some("#tea:x".to_string()) }));
    assert_eq!(entry.alias, Some("#tea:x".to_string()));
    assert_eq!(entry.name, "Plans");
}

#[test]
fn an_avatar_event_sets_the_avatar() {
    let mut entry = RoomEntry::default();
    entry.receive(state(1, 5, 10, StateEvent::RoomAvatar { url: Some("mxc://x/y".to_string()) }));
    assert_eq!(entry.avatar, Some("mxc://x/y".to_string()));
    entry.receive(state(2, 5, 11, StateEvent::RoomAvatar { url: None }));
    assert_eq!(entry.avatar, None);
    assert_eq!(entry.messages.len(), 2);
}

#[test]
fn other_events_change_no_metadata() {
    let mut entry = RoomEntry::from_sdk(&snapshot());
    entry.receive(state(1, 5, 10, StateEvent::Other));
    entry.receive(state(2, 5, 11, StateEvent::RoomTombstone));
    entry.receive(RoomEvent {
        id: 3,
        room: 5,
        timestamp: 12,
        kind: EventKind::Message(MessageEvent { relation: None, image: None }),
    });
    entry.receive(RoomEvent { id: 4, room: 5, timestamp: 13, kind: EventKind::RedactedMessage });
    assert_eq!(entry.name, "Bob");
    assert_eq!(entry.topic, "Talk");
    assert_eq!(entry.messages.len(), 4);
    assert_eq!(entry.messages.updated(), 13);
}

#[test]
fn a_cloned_entry_holds_the_same() {
    let mut entry = RoomEntry::from_sdk(&snapshot());
    entry.receive(state(1, 5, 10, StateEvent::Other));
    let copy = entry.clone();
    assert_eq!(copy.name, "Bob");
    assert_eq!(copy.direct, Some("@bob:example.org".to_string()));
    assert_eq!(copy.messages.len(), 1);
    assert!(copy.messages.contains(1));
}
