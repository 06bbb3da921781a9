//! The mathematical model of the client after login: what each message
//! makes of the state, and which commands go out.
use crate::buffer::BackfillState;
use crate::event::{text_of, EventKind, Membership, RoomEvent, RoomId, StateEvent};
use crate::message::{readable, CommandModel, Message, MessageResponse, PAGE_LIMIT, RoomSorting};
use crate::mxc::mxc;
use crate::registry::{all_valid, lemma_empty_is_valid, room_or_empty};
use crate::timeline::{has_create, has_id, lemma_pushed};
use crate::room::RoomModel;
use crate::session::SessionModel;
use crate::settings::SettingsModel;
use crate::sync::{Event, ToDeviceEvent};
use vstd::prelude::*;

verus! {

/// What is done with an event of a joined room.
#[derive(Debug, Clone, Copy, PartialEq, Eq, Structural)]
pub enum Route {
    /// The room was created: its entry is built from a snapshot.
    Create,
    /// The user joined the room: its entry is built from a snapshot.
    Join,
    /// The user left the room: its entry goes.
    Leave,
    /// Any other event enters the room's entry.
    Keep,
}

/// The mathematical value of the client's state after login.
#[verifier::ext_equal]
pub struct MainModel {
    /// Settings view, if open
    pub settings_view: Option<SettingsModel>,
    /// Sync token to use for backfill calls
    pub sync_token: Seq<char>,
    /// The session of the user
    pub session: SessionModel,
    /// Draft of message to send
    pub draft: Seq<char>,
    /// Potential error message
    pub error: Option<Seq<char>>,
    /// Selected room
    pub selected: Option<RoomId>,
    /// Whether a verification flow is open
    pub sas: bool,
    /// Whether to sort rooms alphabetically or by activity
    pub sorting: RoomSorting,
    /// Room state
    pub rooms: Map<RoomId, RoomModel>,
}

impl MainModel {
    /// The state right after login.
    pub open spec fn new(session: SessionModel) -> MainModel {
        MainModel {
            settings_view: None,
            sync_token: Seq::empty(),
            session,
            draft: Seq::empty(),
            error: None,
            selected: None,
            sas: false,
            sorting: RoomSorting::Alphabetic,
            rooms: Map::empty(),
        }
    }

    /// Every room's entry is valid.
    pub open spec fn wf(self) -> bool {
        all_valid(self.rooms)
    }

    /// This state with an entry for a room.
    pub open spec fn with_room(self, room: RoomId, entry: RoomModel) -> MainModel {
        MainModel { rooms: self.rooms.insert(room, entry), ..self }
    }

    /// This state with an error to show.
    pub open spec fn with_error(self, error: Seq<char>) -> MainModel {
        MainModel { error: Some(error), ..self }
    }

    /// This state with the settings menu changed, if it is open.
    pub open spec fn with_settings(self, change: spec_fn(SettingsModel) -> SettingsModel) -> MainModel {
        match self.settings_view {
            Some(settings) => MainModel { settings_view: Some(change(settings)), ..self },
            None => self,
        }
    }

    /// An image is to be shown: where the text is a content reference,
    /// its media is to be downloaded; where it is not, the error is shown.
    pub open spec fn fetch_image(self, url: Seq<char>) -> (MainModel, Seq<CommandModel>) {
        match mxc(url) {
            Ok((server, media)) => (self, seq![CommandModel::FetchImage { url, server, media }]),
            Err(error) => (self.with_error(error.text()), Seq::empty()),
        }
    }

    /// The images of a list of events are to be shown.
    pub open spec fn fetch_images(self, events: Seq<RoomEvent>) -> (MainModel, Seq<CommandModel>)
        decreases events.len(),
    {
        if events.len() == 0 {
            (self, Seq::empty())
        } else {
            let (before, commands) = self.fetch_images(events.drop_last());
            match events.last().kind.image() {
                Some(url) => {
                    let (after, more) = before.fetch_image(url);
                    (after, commands + more)
                },
                None => (before, commands),
            }
        }
    }

    /// The cursor from which the next page of a room's history is asked
    /// for: the end of what is loaded, else the cursor that the snapshot
    /// of the room gave, else the position of the live stream.
    pub open spec fn backfill_cursor(self, entry: RoomModel) -> Seq<char> {
        match entry.messages.end {
            Some(end) => end,
            None => match entry.prev_batch {
                Some(cursor) => cursor,
                None => self.sync_token,
            },
        }
    }

    /// History is wanted for a room. The room gets an entry if it has
    /// none. Where a page can be asked for, it is: the entry awaits it,
    /// and the request goes out. Where a page is awaited already, or the
    /// beginning of the room is loaded, nothing is asked for.
    pub open spec fn backfill(self, room: RoomId) -> (MainModel, Seq<CommandModel>) {
        let entry = room_or_empty(self.rooms, room);
        match entry.messages.backfill_state() {
            BackfillState::Idle => (
                self.with_room(room, RoomModel { messages: entry.messages.awaiting(), ..entry }),
                seq![
                    CommandModel::BackFill {
                        room,
                        from: self.backfill_cursor(entry),
                        limit: PAGE_LIMIT,
                    },
                ],
            ),
            _ => (self.with_room(room, entry), Seq::empty()),
        }
    }

    /// The events of a page of history, those of its chunk before those of
    /// its state.
    pub open spec fn page(response: MessageResponse) -> Seq<RoomEvent> {
        readable(response.chunk@) + readable(response.state@)
    }

    /// A page of history has arrived: the images of its events are to be
    /// shown, and the room's timeline merges it.
    pub open spec fn backfilled(self, room: RoomId, response: MessageResponse) -> (
        MainModel,
        Seq<CommandModel>,
    ) {
        let events = Self::page(response);
        let (shown, commands) = self.fetch_images(events);
        let entry = room_or_empty(shown.rooms, room);
        (
            shown.with_room(
                room,
                RoomModel {
                    messages: entry.messages.merged(
                        events,
                        text_of(response.start),
                        text_of(response.end),
                    ),
                    ..entry
                },
            ),
            commands,
        )
    }

    /// The request for a page of history has failed: the error is shown,
    /// and the room awaits nothing.
    pub open spec fn backfill_failed(self, room: RoomId, error: Seq<char>) -> MainModel {
        let entry = room_or_empty(self.rooms, room);
        self.with_error(error).with_room(
            room,
            RoomModel { messages: entry.messages.settled(), ..entry },
        )
    }

    /// A room is selected: it gets an entry if it has none, and history is
    /// wanted if it has no event.
    pub open spec fn select(self, room: RoomId) -> (MainModel, Seq<CommandModel>) {
        let selected = MainModel { selected: Some(room), ..self };
        if room_or_empty(self.rooms, room).messages.events.len() == 0 {
            selected.backfill(room)
        } else {
            (selected, Seq::empty())
        }
    }

    /// What is done with an event of a joined room.
    pub open spec fn route(self, event: RoomEvent) -> Route {
        match event.kind {
            EventKind::State(StateEvent::RoomCreate) => Route::Create,
            EventKind::State(StateEvent::RoomMember { state_key, membership }) => {
                if state_key@ == self.session.user_id {
                    match membership {
                        Membership::Join => Route::Join,
                        Membership::Leave => Route::Leave,
                        _ => Route::Keep,
                    }
                } else {
                    Route::Keep
                }
            },
            _ => Route::Keep,
        }
    }

    /// An event enters the entry of its room, which the room gets if it
    /// has none.
    pub open spec fn received(self, event: RoomEvent) -> MainModel {
        self.with_room(event.room, room_or_empty(self.rooms, event.room).received(event))
    }

    /// This state without a room: its entry goes, and nothing is selected
    /// if it was.
    pub open spec fn without_room(self, room: RoomId) -> MainModel {
        MainModel {
            selected: if self.selected == Some(room) {
                None
            } else {
                self.selected
            },
            rooms: self.rooms.remove(room),
            ..self
        }
    }

    /// An event of a joined room has arrived.
    pub open spec fn joined(self, event: RoomEvent) -> (MainModel, Seq<CommandModel>) {
        match self.route(event) {
            Route::Create => (
                self,
                seq![CommandModel::FetchRoom { room: event.room, event: Some(event) }],
            ),
            Route::Join => (
                self.with_room(event.room, room_or_empty(self.rooms, event.room)),
                seq![CommandModel::FetchRoom { room: event.room, event: None }],
            ),
            Route::Leave => (self.without_room(event.room), Seq::empty()),
            Route::Keep => match event.kind.image() {
                Some(url) => self.received(event).fetch_image(url),
                None => (self.received(event), Seq::empty()),
            },
        }
    }

    /// An item of the live stream has arrived.
    pub open spec fn sync(self, event: Event) -> (MainModel, Seq<CommandModel>) {
        match event {
            Event::Joined(event) => self.joined(event),
            Event::ToDevice(ToDeviceEvent::KeyVerificationStart { sender, transaction_id }) => (
                self,
                seq![
                    CommandModel::GetVerification {
                        sender: sender@,
                        transaction_id: transaction_id@,
                    },
                ],
            ),
            Event::ToDevice(ToDeviceEvent::KeyVerificationCancel { code }) => (
                self.verification_cancelled(code@),
                Seq::empty(),
            ),
            Event::Token(token) => (MainModel { sync_token: token@, ..self }, Seq::empty()),
            _ => (self, Seq::empty()),
        }
    }

    /// A verification flow was cancelled: it is closed, and the reason is shown.
    pub open spec fn verification_cancelled(self, code: Seq<char>) -> MainModel {
        MainModel { sas: false, error: Some(code), ..self }
    }

    /// A step of the open verification flow is asked for.
    pub open spec fn verification(self, command: CommandModel) -> Seq<CommandModel> {
        if self.sas {
            seq![command]
        } else {
            Seq::empty()
        }
    }

    /// What one message makes of the state, and what is to be carried out.
    pub open spec fn update(self, message: Message) -> (MainModel, Seq<CommandModel>) {
        match message {
            Message::ErrorMessage(error) => (self.with_error(error@), Seq::empty()),
            Message::ClearError => (MainModel { error: None, ..self }, Seq::empty()),
            Message::SetSort(sorting) => (MainModel { sorting, ..self }, Seq::empty()),
            Message::ResetRoom(room, entry) => self.with_room(room, entry@).backfill(room),
            Message::RoomName(room, name) => (
                if self.rooms.contains_key(room) {
                    self.with_room(room, RoomModel { name: name@, ..self.rooms[room] })
                } else {
                    self
                },
                Seq::empty(),
            ),
            Message::SelectRoom(room) => self.select(room),
            Message::Sync(event) => self.sync(event),
            Message::BackFill(room) => self.backfill(room),
            Message::BackFilled(room, response) => self.backfilled(room, response),
            Message::BackFillFailed(room, error) => (
                self.backfill_failed(room, error@),
                Seq::empty(),
            ),
            Message::FetchImage(url) => self.fetch_image(url@),
            Message::SetVerification(sas) => (MainModel { sas, ..self }, Seq::empty()),
            Message::VerificationAccept => (
                self,
                self.verification(CommandModel::AcceptVerification),
            ),
            Message::VerificationConfirm => (
                self,
                self.verification(CommandModel::ConfirmVerification),
            ),
            Message::VerificationCancel => (
                self,
                self.verification(CommandModel::CancelVerification),
            ),
            Message::VerificationCancelled(code) => (
                self.verification_cancelled(code@),
                Seq::empty(),
            ),
            Message::VerificationClose => (MainModel { sas: false, ..self }, Seq::empty()),
            Message::SetMessage(draft) => (MainModel { draft: draft@, ..self }, Seq::empty()),
            Message::SendMessage => (
                self,
                match self.selected {
                    Some(room) => seq![CommandModel::SendMessage { room, body: self.draft }],
                    None => Seq::empty(),
                },
            ),
            Message::OpenSettings => (
                MainModel { settings_view: Some(SettingsModel::empty()), ..self },
                seq![CommandModel::FetchDisplayName],
            ),
            Message::SetDisplayNameInput(name) => (
                self.with_settings(
                    |settings: SettingsModel| SettingsModel { display_name: name@, ..settings },
                ),
                Seq::empty(),
            ),
            Message::SaveDisplayName => (
                self.with_settings(
                    |settings: SettingsModel| SettingsModel { saving_name: true, ..settings },
                ),
                match self.settings_view {
                    Some(settings) => seq![CommandModel::SaveDisplayName(settings.display_name)],
                    None => Seq::empty(),
                },
            ),
            Message::DisplayNameSaved => (
                self.with_settings(
                    |settings: SettingsModel| SettingsModel { saving_name: false, ..settings },
                ),
                Seq::empty(),
            ),
            Message::SetKeyPath(path) => (
                self.with_settings(
                    |settings: SettingsModel| SettingsModel { key_path: path@, ..settings },
                ),
                Seq::empty(),
            ),
            Message::SetKeyPassword(password) => (
                self.with_settings(
                    |settings: SettingsModel| SettingsModel { key_password: password@, ..settings },
                ),
                Seq::empty(),
            ),
            Message::ImportKeys => (
                self,
                match self.settings_view {
                    Some(settings) => seq![
                        CommandModel::ImportKeys {
                            path: settings.key_path,
                            password: settings.key_password,
                        },
                    ],
                    None => Seq::empty(),
                },
            ),
            Message::CloseSettings => (MainModel { settings_view: None, ..self }, Seq::empty()),
            _ => (self, Seq::empty()),
        }
    }
}

/// When the user leaves a room, the room leaves the registry, and
/// nothing is selected if the room was; every other room stays as it is.
pub proof fn law_leave_removes_room(state: MainModel, event: RoomEvent)
    requires
        event.kind matches EventKind::State(StateEvent::RoomMember { state_key, membership })
            && state_key@ == state.session.user_id && membership == Membership::Leave,
    ensures
        ({
            let (next, commands) = state.update(Message::Sync(Event::Joined(event)));
            &&& !next.rooms.contains_key(event.room)
            &&& state.selected == Some(event.room) ==> next.selected is None
            &&& state.selected != Some(event.room) ==> next.selected == state.selected
            &&& forall|other: RoomId|
                other != event.room ==> next.rooms.contains_key(other) == state.rooms.contains_key(
                    other,
                ) && next.rooms[other] == state.rooms[other]
            &&& commands.len() == 0
        }),
{
}

/// An event that is kept enters the timeline of its room, which has an
/// entry from then on; no other room changes.
pub proof fn law_event_enters_its_room(state: MainModel, event: RoomEvent)
    requires
        state.wf(),
        state.route(event) == Route::Keep,
    ensures
        ({
            let (next, _) = state.update(Message::Sync(Event::Joined(event)));
            &&& next.wf()
            &&& next.rooms.contains_key(event.room)
            &&& has_id(next.rooms[event.room].messages.events, event.id)
            &&& forall|other: RoomId|
                other != event.room ==> next.rooms.contains_key(other) == state.rooms.contains_key(
                    other,
                ) && next.rooms[other] == state.rooms[other]
        }),
{
    lemma_empty_is_valid();
    let entry = room_or_empty(state.rooms, event.room);
    let patched = entry.patched(event);
    assert(patched.messages == entry.messages);
    lemma_pushed(entry.messages.events, event);
    let next = state.received(event);
    assert(next.rooms[event.room] == entry.received(event));
    assert(next.wf()) by {
        assert forall|room: RoomId| next.rooms.contains_key(room) implies (
        #[trigger] next.rooms[room]).wf() by {
            if room != event.room {
                assert(state.rooms[room].wf());
            }
        }
    }
}

/// Events of different rooms can arrive in either order: what two kept
/// events make of the state does not depend on which comes first.
pub proof fn law_rooms_are_independent(state: MainModel, first: RoomEvent, second: RoomEvent)
    requires
        first.room != second.room,
    ensures
        state.received(first).received(second) == state.received(second).received(first),
{
    let one = state.received(first).received(second);
    let other = state.received(second).received(first);
    assert(one.rooms =~= other.rooms);
}

/// After a page of history has arrived with a cursor for its end, the next
/// request for history of that room starts from that cursor.
pub proof fn law_backfill_uses_new_cursor(state: MainModel, room: RoomId, response: MessageResponse)
    requires
        response.end is Some,
        state.backfilled(room, response).0.rooms[room].messages.backfill_state()
            == BackfillState::Idle,
    ensures
        ({
            let (merged, _) = state.update(Message::BackFilled(room, response));
            let (_, commands) = merged.update(Message::BackFill(room));
            commands == seq![
                CommandModel::BackFill { room, from: response.end->0@, limit: PAGE_LIMIT },
            ]
        }),
{
    lemma_fetch_images_keeps_rooms(state, MainModel::page(response));
}

/// Showing images changes no room.
pub proof fn lemma_fetch_images_keeps_rooms(state: MainModel, events: Seq<RoomEvent>)
    ensures
        state.fetch_images(events).0.rooms == state.rooms,
        state.fetch_images(events).0.sync_token == state.sync_token,
    decreases events.len(),
{
    if events.len() > 0 {
        lemma_fetch_images_keeps_rooms(state, events.drop_last());
    }
}

/// A request for history that fails leaves the room as it was but for
/// what it awaits: the events and the cursors stand, nothing is awaited,
/// and the same request can go out again.
pub proof fn law_failed_backfill_keeps_cursor(state: MainModel, room: RoomId, error: Seq<char>)
    requires
        state.rooms.contains_key(room),
    ensures
        ({
            let before = state.rooms[room].messages;
            let after = state.backfill_failed(room, error).rooms[room].messages;
            &&& after == before.settled()
            &&& after.events == before.events
            &&& after.start == before.start
            &&& after.end == before.end
            &&& !after.loading
        }),
        state.backfill_failed(room, error).error == Some(error),
        state.rooms[room].messages.backfill_state() == BackfillState::Loading && !has_create(
            state.rooms[room].messages.events,
        ) ==> state.backfill_failed(room, error).backfill(room).1 == seq![
            CommandModel::BackFill {
                room,
                from: state.backfill_cursor(state.rooms[room]),
                limit: PAGE_LIMIT,
            },
        ],
{
}

/// While a page of a room's history is awaited, or once the beginning of
/// the room is loaded, no page is asked for.
pub proof fn law_no_backfill_unless_idle(state: MainModel, room: RoomId)
    requires
        state.rooms.contains_key(room),
        state.rooms[room].messages.backfill_state() != BackfillState::Idle,
    ensures
        state.update(Message::BackFill(room)).1 == Seq::<CommandModel>::empty(),
        state.update(Message::BackFill(room)).0 == state,
{
    assert(state.rooms.insert(room, state.rooms[room]) =~= state.rooms);
}

} // verus!
