use retrix::{
    Command, Event, EventKind, MainView, Membership, Message, MessageEvent, MessageResponse,
    Relation, RoomEntry, RoomEvent, RoomSnapshot, RoomSorting, Session, StateEvent, ToDeviceEvent,
    PAGE_LIMIT,
};

const ME: &str = "@me:example.org";

fn session() -> Session {
    Session {
        access_token: "token".to_string(),
        user_id: ME.to_string(),
        device_id: "DEVICE".to_string(),
        homeserver: "https://example.org".to_string(),
    }
}

fn text(id: u64, room: u64, timestamp: u64) -> RoomEvent {
    RoomEvent {
        id,
        room,
        timestamp,
        kind: EventKind::Message(MessageEvent { relation: None, image: None }),
    }
}

fn image(id: u64, room: u64, timestamp: u64, url: &str) -> RoomEvent {
    RoomEvent {
        id,
        room,
        timestamp,
        kind: EventKind::Message(MessageEvent { relation: None, image: Some(url.to_string()) }),
    }
}

fn member(id: u64, room: u64, user: &str, membership: Membership) -> RoomEvent {
    RoomEvent {
        id,
        room,
        timestamp: 50,
        kind: EventKind::State(StateEvent::RoomMember { state_key: user.to_string(), membership }),
    }
}

fn joined(view: &mut MainView, event: RoomEvent) -> Vec<Command> {
    view.update(Message::Sync(Event::Joined(event)))
}

fn kinds(commands: &[Command]) -> Vec<String> {
    commands.iter().map(|command| format!("{:?}", command)).collect()
}

fn page(chunk: Vec<Option<RoomEvent>>, end: Option<&str>) -> MessageResponse {
    MessageResponse { chunk, state: vec![], start: None, end: end.map(str::to_string) }
}

fn event_ids(view: &MainView, room: u64) -> Vec<u64> {
    let entry = view.room(room).ok().unwrap();
    (0..entry.messages.len()).map(|at| entry.messages.get(at).unwrap().id).collect()
}

#[test]
fn a_new_view_has_no_room() {
    let view = MainView::new(session());
    assert_eq!(view.room_count(), 0);
    assert_eq!(view.selected(), None);
    assert_eq!(view.error(), None);
    assert_eq!(view.draft(), "");
    assert_eq!(view.sync_token(), "");
    assert_eq!(view.sorting(), RoomSorting::Alphabetic);
    assert!(!view.verifying());
    assert!(view.settings().is_none());
    assert_eq!(view.session().user_id, ME);
}

#[test]
fn room_gives_the_entry_or_the_command_that_fetches_it() {
    let mut view = MainView::new(session());
    match view.room(4) {
        Err(Command::FetchRoom { room: 4, event: None }) => {}
        other => panic!("{:?}", other.map(|_| ())),
    }
    joined(&mut view, text(1, 4, 10));
    assert!(view.room(4).is_ok());
    assert!(view.has_room(4));
    assert!(!view.has_room(5));
}

#[test]
fn a_message_enters_its_room_which_is_made_on_demand() {
    let mut view = MainView::new(session());
    let commands = joined(&mut view, text(1, 4, 10));
    assert!(commands.is_empty());
    joined(&mut view, text(2, 4, 5));
    joined(&mut view, text(3, 9, 7));
    assert_eq!(view.room_count(), 2);
    assert_eq!(event_ids(&view, 4), vec![2, 1]);
    assert_eq!(event_ids(&view, 9), vec![3]);
}

#[test]
fn an_image_message_asks_for_its_media() {
    let mut view = MainView::new(session());
    let commands = joined(&mut view, image(1, 4, 10, "mxc://example.org/pic"));
    assert_eq!(commands.len(), 1);
    match &commands[0] {
        Command::FetchImage { url, server, media } => {
            assert_eq!(url, "mxc://example.org/pic");
            assert_eq!(server, "example.org");
            assert_eq!(media, "pic");
        }
        other => panic!("{:?}", other),
    }
    assert_eq!(view.error(), None);
    assert_eq!(event_ids(&view, 4), vec![1]);
}

#[test]
fn an_image_that_is_no_content_reference_shows_an_error() {
    let mut view = MainView::new(session());
    let commands = joined(&mut view, image(1, 4, 10, "https://example.org/pic"));
    assert!(commands.is_empty());
    assert_eq!(view.error(), Some("Not an mxc url".to_string()));
    assert_eq!(event_ids(&view, 4), vec![1]);
    let commands = view.update(Message::FetchImage("nothing".to_string()));
    assert!(commands.is_empty());
    assert_eq!(view.error(), Some("Invalid url".to_string()));
}

#[test]
fn an_edit_in_the_live_stream_replaces_its_target() {
    let mut view = MainView::new(session());
    joined(&mut view, text(1, 4, 10));
    joined(
        &mut view,
        RoomEvent {
            id: 2,
            room: 4,
            timestamp: 11,
            kind: EventKind::Message(MessageEvent {
                relation: Some(Relation::Replacement(1)),
                image: None,
            }),
        },
    );
    assert_eq!(event_ids(&view, 4), vec![2]);
}

#[test]
fn leaving_removes_the_room_and_the_selection() {
    let mut view = MainView::new(session());
    joined(&mut view, text(1, 4, 10));
    joined(&mut view, text(2, 9, 10));
    view.update(Message::SelectRoom(4));
    assert_eq!(view.selected(), Some(4));
    let commands = joined(&mut view, member(3, 4, ME, Membership::Leave));
    assert!(commands.is_empty());
    assert!(!view.has_room(4));
    assert!(view.has_room(9));
    assert_eq!(view.selected(), None);
}

#[test]
fn leaving_another_room_keeps_the_selection() {
    let mut view = MainView::new(session());
    joined(&mut view, text(1, 4, 10));
    joined(&mut view, text(2, 9, 10));
    view.update(Message::SelectRoom(9));
    joined(&mut view, member(3, 4, ME, Membership::Leave));
    assert!(!view.has_room(4));
    assert_eq!(view.selected(), Some(9));
}

#[test]
fn someone_else_leaving_is_an_event_like_any_other() {
    let mut view = MainView::new(session());
    joined(&mut view, text(1, 4, 10));
    let commands = joined(&mut view, member(3, 4, "@you:example.org", Membership::Leave));
    assert!(commands.is_empty());
    assert!(view.has_room(4));
    assert_eq!(event_ids(&view, 4), vec![1, 3]);
}

#[test]
fn joining_fetches_the_room() {
    let mut view = MainView::new(session());
    let commands = joined(&mut view, member(3, 4, ME, Membership::Join));
    assert_eq!(kinds(&commands), vec!["FetchRoom { room: 4, event: None }"]);
    assert!(view.has_room(4));
    assert!(view.room(4).ok().unwrap().messages.is_empty());
}

#[test]
fn an_invitation_of_the_user_is_stored() {
    let mut view = MainView::new(session());
    let commands = joined(&mut view, member(3, 4, ME, Membership::Invite));
    assert!(commands.is_empty());
    assert_eq!(event_ids(&view, 4), vec![3]);
}

#[test]
fn a_create_event_fetches_the_room_and_goes_with_it() {
    let mut view = MainView::new(session());
    let event = RoomEvent { id: 1, room: 4, timestamp: 1, kind: EventKind::State(StateEvent::RoomCreate) };
    let commands = joined(&mut view, event);
    assert_eq!(commands.len(), 1);
    match &commands[0] {
        Command::FetchRoom { room: 4, event: Some(event) } => assert_eq!(event.id, 1),
        other => panic!("{:?}", other),
    }
    assert!(!view.has_room(4));
}

#[test]
fn state_events_patch_the_room() {
    let mut view = MainView::new(session());
    let state = |id, content| RoomEvent { id, room: 4, timestamp: id, kind: EventKind::State(content) };
    joined(&mut view, state(1, StateEvent::RoomTopic { topic: "Tea".to_string() }));
    joined(&mut view, state(2, StateEvent::RoomCanonicalAlias { alias: Some("#tea:x".to_string()) }));
    joined(&mut view, state(3, StateEvent::RoomAvatar { url: Some("mxc://x/a".to_string()) }));
    {
        let entry = view.room(4).ok().unwrap();
        assert_eq!(entry.topic, "Tea");
        assert_eq!(entry.name, "#tea:x");
        assert_eq!(entry.avatar, Some("mxc://x/a".to_string()));
    }
    joined(&mut view, state(4, StateEvent::RoomName { name: Some("Tea room".to_string()) }));
    let entry = view.room(4).ok().unwrap();
    assert_eq!(entry.name, "Tea room");
    assert_eq!(entry.display_name, Some("Tea room".to_string()));
    assert_eq!(event_ids(&view, 4), vec![1, 2, 3, 4]);
}

#[test]
fn events_of_rooms_not_joined_are_ignored() {
    let mut view = MainView::new(session());
    assert!(view.update(Message::Sync(Event::Invited(text(1, 4, 10)))).is_empty());
    assert!(view.update(Message::Sync(Event::Left(text(2, 4, 10)))).is_empty());
    assert_eq!(view.room_count(), 0);
}

#[test]
fn the_token_of_the_live_stream_is_kept() {
    let mut view = MainView::new(session());
    view.update(Message::Sync(Event::Token("t1".to_string())));
    assert_eq!(view.sync_token(), "t1");
    view.update(Message::SyncToken("t2".to_string()));
    assert_eq!(view.sync_token(), "t1");
}

#[test]
fn backfill_starts_from_the_sync_token_where_nothing_else_is_known() {
    let mut view = MainView::new(session());
    view.update(Message::Sync(Event::Token("live".to_string())));
    let commands = view.update(Message::BackFill(4));
    assert_eq!(kinds(&commands), vec![format!("BackFill {{ room: 4, from: \"live\", limit: {} }}", PAGE_LIMIT)]);
    assert_eq!(PAGE_LIMIT, 30);
    assert!(view.room(4).ok().unwrap().messages.is_loading());
}

#[test]
fn backfill_starts_from_the_cursor_of_the_snapshot() {
    let mut view = MainView::new(session());
    view.update(Message::Sync(Event::Token("live".to_string())));
    let entry = RoomEntry::from_sdk(&RoomSnapshot {
        direct_target: None,
        display_name: "Tea".to_string(),
        topic: None,
        canonical_alias: None,
        avatar_url: None,
        last_prev_batch: Some("prev".to_string()),
    });
    let commands = view.update(Message::ResetRoom(4, entry));
    assert_eq!(kinds(&commands), vec!["BackFill { room: 4, from: \"prev\", limit: 30 }"]);
    assert_eq!(view.room(4).ok().unwrap().name, "Tea");
}

#[test]
fn the_next_backfill_uses_the_cursor_that_the_page_brought() {
    let mut view = MainView::new(session());
    view.update(Message::Sync(Event::Token("T".to_string())));
    let first = view.update(Message::BackFill(4));
    assert_eq!(kinds(&first), vec!["BackFill { room: 4, from: \"T\", limit: 30 }"]);
    view.update(Message::BackFilled(4, page(vec![Some(text(2, 4, 20)), Some(text(1, 4, 10))], Some("T2"))));
    assert!(!view.room(4).ok().unwrap().messages.is_loading());
    assert_eq!(event_ids(&view, 4), vec![1, 2]);
    let second = view.update(Message::BackFill(4));
    assert_eq!(kinds(&second), vec!["BackFill { room: 4, from: \"T2\", limit: 30 }"]);
}

#[test]
fn no_backfill_is_asked_for_while_one_is_awaited() {
    let mut view = MainView::new(session());
    assert_eq!(view.update(Message::BackFill(4)).len(), 1);
    assert!(view.update(Message::BackFill(4)).is_empty());
    assert!(view.update(Message::SelectRoom(4)).is_empty());
    assert!(view.room(4).ok().unwrap().messages.is_loading());
}

#[test]
fn no_backfill_is_asked_for_once_the_beginning_is_loaded() {
    let mut view = MainView::new(session());
    view.update(Message::BackFill(4));
    let create = RoomEvent { id: 1, room: 4, timestamp: 1, kind: EventKind::State(StateEvent::RoomCreate) };
    view.update(Message::BackFilled(4, MessageResponse {
        chunk: vec![Some(text(2, 4, 20))],
        state: vec![Some(create)],
        start: Some("s".to_string()),
        end: Some("e".to_string()),
    }));
    assert_eq!(event_ids(&view, 4), vec![1, 2]);
    assert!(view.room(4).ok().unwrap().messages.has_beginning());
    assert!(view.update(Message::BackFill(4)).is_empty());
    assert!(!view.room(4).ok().unwrap().messages.is_loading());
}

#[test]
fn a_failed_backfill_can_be_tried_again_with_the_same_cursor() {
    let mut view = MainView::new(session());
    view.update(Message::BackFill(4));
    view.update(Message::BackFilled(4, page(vec![Some(text(1, 4, 10))], Some("T2"))));
    assert_eq!(view.update(Message::BackFill(4)).len(), 1);
    let commands = view.update(Message::BackFillFailed(4, "timeout".to_string()));
    assert!(commands.is_empty());
    assert_eq!(view.error(), Some("timeout".to_string()));
    assert!(!view.room(4).ok().unwrap().messages.is_loading());
    let again = view.update(Message::BackFill(4));
    assert_eq!(kinds(&again), vec!["BackFill { room: 4, from: \"T2\", limit: 30 }"]);
}

#[test]
fn a_page_is_merged_without_the_events_that_could_not_be_read() {
    let mut view = MainView::new(session());
    joined(&mut view, text(3, 4, 30));
    view.update(Message::BackFill(4));
    let commands = view.update(Message::BackFilled(4, MessageResponse {
        chunk: vec![None, Some(text(3, 4, 30)), Some(image(2, 4, 20, "mxc://x.org/m")), None, Some(text(1, 4, 10))],
        state: vec![None, Some(RoomEvent { id: 9, room: 4, timestamp: 5, kind: EventKind::State(StateEvent::Other) })],
        start: None,
        end: None,
    }));
    assert_eq!(event_ids(&view, 4), vec![9, 1, 2, 3]);
    assert_eq!(commands.len(), 1);
    match &commands[0] {
        Command::FetchImage { media, .. } => assert_eq!(media, "m"),
        other => panic!("{:?}", other),
    }
}

#[test]
fn a_page_for_a_room_that_is_not_selected_is_merged_all_the_same() {
    let mut view = MainView::new(session());
    view.update(Message::SelectRoom(4));
    view.update(Message::SelectRoom(9));
    view.update(Message::BackFilled(4, page(vec![Some(text(1, 4, 10))], None)));
    assert_eq!(view.selected(), Some(9));
    assert_eq!(event_ids(&view, 4), vec![1]);
    assert!(view.room(9).ok().unwrap().messages.is_loading());
}

#[test]
fn selecting_an_empty_room_asks_for_history() {
    let mut view = MainView::new(session());
    let commands = view.update(Message::SelectRoom(4));
    assert_eq!(view.selected(), Some(4));
    assert_eq!(commands.len(), 1);
    assert!(view.has_room(4));
    joined(&mut view, text(1, 9, 10));
    assert!(view.update(Message::SelectRoom(9)).is_empty());
    assert_eq!(view.selected(), Some(9));
}

#[test]
fn the_name_of_a_known_room_can_be_set() {
    let mut view = MainView::new(session());
    joined(&mut view, text(1, 4, 10));
    view.update(Message::RoomName(4, "Tea".to_string()));
    view.update(Message::RoomName(5, "None".to_string()));
    assert_eq!(view.room(4).ok().unwrap().name, "Tea");
    assert!(!view.has_room(5));
}

#[test]
fn errors_are_shown_and_cleared() {
    let mut view = MainView::new(session());
    view.update(Message::ErrorMessage("bad".to_string()));
    assert_eq!(view.error(), Some("bad".to_string()));
    view.update(Message::ClearError);
    assert_eq!(view.error(), None);
}

#[test]
fn the_sorting_is_set() {
    let mut view = MainView::new(session());
    view.update(Message::SetSort(RoomSorting::Recent));
    assert_eq!(view.sorting(), RoomSorting::Recent);
}

#[test]
fn a_verification_flow_is_opened_stepped_and_closed() {
    let mut view = MainView::new(session());
    assert!(view.update(Message::VerificationAccept).is_empty());
    let commands = view.update(Message::Sync(Event::ToDevice(ToDeviceEvent::KeyVerificationStart {
        sender: "@you:example.org".to_string(),
        transaction_id: "tx".to_string(),
    })));
    assert_eq!(
        kinds(&commands),
        vec!["GetVerification { sender: \"@you:example.org\", transaction_id: \"tx\" }"]
    );
    view.update(Message::SetVerification(true));
    assert!(view.verifying());
    assert_eq!(kinds(&view.update(Message::VerificationAccept)), vec!["AcceptVerification"]);
    assert_eq!(kinds(&view.update(Message::VerificationConfirm)), vec!["ConfirmVerification"]);
    assert_eq!(kinds(&view.update(Message::VerificationCancel)), vec!["CancelVerification"]);
    assert!(view.update(Message::VerificationAccepted).is_empty());
    assert!(view.update(Message::VerificationConfirmed).is_empty());
    assert!(view.verifying());
    view.update(Message::VerificationClose);
    assert!(!view.verifying());
    assert_eq!(view.error(), None);
}

#[test]
fn a_cancelled_verification_shows_why() {
    let mut view = MainView::new(session());
    view.update(Message::SetVerification(true));
    view.update(Message::Sync(Event::ToDevice(ToDeviceEvent::KeyVerificationCancel {
        code: "m.user".to_string(),
    })));
    assert!(!view.verifying());
    assert_eq!(view.error(), Some("m.user".to_string()));
    view.update(Message::SetVerification(true));
    view.update(Message::VerificationCancelled("m.timeout".to_string()));
    assert!(!view.verifying());
    assert_eq!(view.error(), Some("m.timeout".to_string()));
    assert!(view.update(Message::Sync(Event::ToDevice(ToDeviceEvent::Other))).is_empty());
}

#[test]
fn the_draft_is_sent_to_the_selected_room() {
    let mut view = MainView::new(session());
    view.update(Message::SetMessage("hello".to_string()));
    assert_eq!(view.draft(), "hello");
    assert!(view.update(Message::SendMessage).is_empty());
    view.update(Message::SelectRoom(4));
    let commands = view.update(Message::SendMessage);
    assert_eq!(kinds(&commands), vec!["SendMessage { room: 4, body: \"hello\" }"]);
    assert_eq!(view.draft(), "hello");
}

#[test]
fn the_settings_menu_keeps_what_is_typed() {
    let mut view = MainView::new(session());
    assert!(view.update(Message::SetDisplayNameInput("x".to_string())).is_empty());
    assert!(view.update(Message::SaveDisplayName).is_empty());
    assert!(view.update(Message::ImportKeys).is_empty());
    assert!(view.settings().is_none());
    assert_eq!(kinds(&view.update(Message::OpenSettings)), vec!["FetchDisplayName"]);
    assert_eq!(view.settings().unwrap().display_name, "");
    view.update(Message::SetDisplayNameInput("Alice".to_string()));
    view.update(Message::SetKeyPath("/keys".to_string()));
    view.update(Message::SetKeyPassword("secret".to_string()));
    assert_eq!(kinds(&view.update(Message::SaveDisplayName)), vec!["SaveDisplayName(\"Alice\")"]);
    assert!(view.settings().unwrap().saving_name);
    view.update(Message::DisplayNameSaved);
    assert!(!view.settings().unwrap().saving_name);
    assert_eq!(
        kinds(&view.update(Message::ImportKeys)),
        vec!["ImportKeys { path: \"/keys\", password: \"secret\" }"]
    );
    view.update(Message::CloseSettings);
    assert!(view.settings().is_none());
}

#[test]
fn messages_of_the_prompt_change_nothing_after_login() {
    let mut view = MainView::new(session());
    for message in [
        Message::Noop,
        Message::SetUser("u".to_string()),
        Message::Login,
        Message::Signup,
        Message::LoginFailed("e".to_string()),
        Message::LoggedIn(session(), vec![1]),
    ] {
        assert!(view.update(message).is_empty());
    }
    assert_eq!(view.room_count(), 0);
    assert_eq!(view.error(), None);
}
