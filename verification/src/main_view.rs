//! The state of the client after login, and what it decides on each message:
//! how an event of the live stream changes the rooms, when a page of
//! history is asked for, and how it is merged when it arrives.
//!
//! Nothing here waits or sends. `update` takes a message, changes the state
//! and returns the commands that the caller is to carry out.
use crate::buffer::BackfillState;
use crate::event::{
    clone_text, text_of, AnyRoomEventExt, EventKind, Membership, RoomEvent, RoomId, StateEvent,
};
use crate::main_model::{MainModel, Route};
use crate::message::{
    actions, readable, Command, CommandModel, Message, MessageResponse, PAGE_LIMIT, RoomSorting,
};
use crate::mxc::parse_mxc;
use crate::registry::RoomRegistry;
use crate::room::RoomEntry;
use crate::room_list::{
    belongs, hidden, in_order, lemma_placed_rooms, listed, place, rank_of, rooms_in, rooms_of,
    stands_before, Ranked,
};
use crate::session::Session;
use crate::settings::{SettingsModel, SettingsView};
use crate::sync::{Event, ToDeviceEvent};
use vstd::prelude::*;

verus! {

/// The room list: the direct conversations and the other rooms, each in
/// its order.
#[derive(Debug, Clone)]
pub struct RoomList {
    /// The direct conversations.
    pub direct: Vec<RoomId>,
    /// The other rooms.
    pub groups: Vec<RoomId>,
}

/// The value of an optional settings menu.
pub open spec fn settings_of(settings: Option<SettingsView>) -> Option<SettingsModel> {
    match settings {
        Some(settings) => Some(settings@),
        None => None,
    }
}

/// Main view after successful login
#[derive(Debug)]
pub struct MainView {
    /// Settings view, if open
    settings_view: Option<SettingsView>,
    /// Sync token to use for backfill calls
    sync_token: String,
    /// The session of the user
    session: Session,
    /// Draft of message to send
    draft: String,
    /// Potential error message
    error: Option<String>,
    /// Selected room
    selected: Option<RoomId>,
    /// Whether a verification flow is open
    sas: bool,
    /// Whether to sort rooms alphabetically or by activity
    sorting: RoomSorting,
    /// Room state
    rooms: RoomRegistry,
}

impl View for MainView {
    type V = MainModel;

    closed spec fn view(&self) -> MainModel {
        MainModel {
            settings_view: settings_of(self.settings_view),
            sync_token: self.sync_token@,
            session: self.session@,
            draft: self.draft@,
            error: text_of(self.error),
            selected: self.selected,
            sas: self.sas,
            sorting: self.sorting,
            rooms: self.rooms@,
        }
    }
}

impl MainView {
    /// Every room's entry is valid.
    pub open spec fn wf(&self) -> bool {
        self@.wf()
    }

    /// The state right after login: no room, nothing selected, rooms
    /// sorted by name.
    pub fn new(session: Session) -> (view: Self)
        ensures
            view.wf(),
            view@ == MainModel::new(session@),
    {
        let view = MainView {
            session,
            sync_token: String::new(),
            settings_view: None,
            error: None,
            sas: false,
            rooms: RoomRegistry::new(),
            selected: None,
            draft: String::new(),
            sorting: RoomSorting::Alphabetic,
        };
        view
    }

    /// The entry of a room, or the command that fetches it.
    pub fn room(&self, id: RoomId) -> (found: Result<&RoomEntry, Command>)
        ensures
            match found {
                Ok(entry) => self@.rooms.contains_key(id) && entry@ == self@.rooms[id],
                Err(command) => !self@.rooms.contains_key(id) && command@
                    == (CommandModel::FetchRoom { room: id, event: None }),
            },
    {
        match self.rooms.get(id) {
            Some(room) => Ok(room),
            None => Err(Command::FetchRoom { room: id, event: None }),
        }
    }

    /// The selected room.
    pub fn selected(&self) -> (selected: Option<RoomId>)
        ensures
            selected == self@.selected,
    {
        self.selected
    }

    /// The error that is shown, if any.
    pub fn error(&self) -> (error: Option<String>)
        ensures
            text_of(error) == self@.error,
    {
        clone_text(&self.error)
    }

    /// The draft of the message to send.
    pub fn draft(&self) -> (draft: &String)
        ensures
            draft@ == self@.draft,
    {
        &self.draft
    }

    /// The position of the live stream.
    pub fn sync_token(&self) -> (token: &String)
        ensures
            token@ == self@.sync_token,
    {
        &self.sync_token
    }

    /// The session of the user.
    pub fn session(&self) -> (session: &Session)
        ensures
            session@ == self@.session,
    {
        &self.session
    }

    /// How the room list is sorted.
    pub fn sorting(&self) -> (sorting: RoomSorting)
        ensures
            sorting == self@.sorting,
    {
        self.sorting
    }

    /// Whether a verification flow is open.
    pub fn verifying(&self) -> (open: bool)
        ensures
            open == self@.sas,
    {
        self.sas
    }

    /// The settings menu, if it is open.
    pub fn settings(&self) -> (settings: Option<&SettingsView>)
        ensures
            match settings {
                Some(settings) => self@.settings_view == Some(settings@),
                None => self@.settings_view is None,
            },
    {
        self.settings_view.as_ref()
    }

    /// The number of rooms.
    pub fn room_count(&self) -> (count: usize)
        ensures
            count == self@.rooms.len(),
    {
        self.rooms.len()
    }

    /// The rooms that have an entry, in ascending order of their handles.
    pub fn room_ids(&self) -> (ids: Vec<RoomId>)
        ensures
            forall|room: RoomId| ids@.contains(room) <==> self@.rooms.contains_key(room),
            forall|i: int, j: int| 0 <= i < j < ids@.len() ==> ids@[i] < ids@[j],
    {
        self.rooms.ids()
    }

    /// Whether a room is left out of the room list: it was upgraded, and
    /// the room that replaced it has an entry.
    fn is_hidden(&self, upgrades: &Vec<(RoomId, RoomId)>, room: RoomId) -> (out: bool)
        ensures
            out == hidden(self@.rooms, upgrades@, room),
    {
        let mut at: usize = 0;
        while at < upgrades.len()
            invariant
                at <= upgrades@.len(),
                forall|i: int|
                    0 <= i < at ==> !((#[trigger] upgrades@[i]).0 == room
                        && self@.rooms.contains_key(upgrades@[i].1)),
            decreases upgrades@.len() - at,
        {
            if upgrades[at].0 == room && self.rooms.contains(upgrades[at].1) {
                return true;
            }
            at += 1;
        }
        false
    }

    /// The room list: the direct conversations and the other rooms, each
    /// in the order that the sorting asks for. `upgrades` names the rooms
    /// that were upgraded, each with the room that replaced it; an
    /// upgraded room is left out where its replacement has an entry.
    pub fn room_list(&self, upgrades: &Vec<(RoomId, RoomId)>) -> (list: RoomList)
        ensures
            listed(self@.rooms, upgrades@, self@.sorting, true, list.direct@),
            listed(self@.rooms, upgrades@, self@.sorting, false, list.groups@),
    {
        let ids = self.room_ids();
        let sorting = self.sorting;
        let mut direct: Vec<Ranked> = Vec::new();
        let mut groups: Vec<Ranked> = Vec::new();
        let mut at: usize = 0;
        while at < ids.len()
            invariant
                at <= ids@.len(),
                sorting == self@.sorting,
                forall|i: int, j: int| 0 <= i < j < ids@.len() ==> ids@[i] < ids@[j],
                forall|room: RoomId| ids@.contains(room) <==> self@.rooms.contains_key(room),
                self.ranks(upgrades@, true, ids@.take(at as int), direct@),
                self.ranks(upgrades@, false, ids@.take(at as int), groups@),
            decreases ids@.len() - at,
        {
            let room = ids[at];
            proof {
                assert(ids@.contains(room));
                let seen = ids@.take(at as int);
                let next = ids@.take(at + 1);
                assert(!seen.contains(room)) by {
                    if seen.contains(room) {
                        let k = choose|k: int| 0 <= k < seen.len() && seen[k] == room;
                        assert(ids@[k] == ids@[at as int]);
                    }
                }
                assert forall|other: RoomId| next.contains(other) <==> seen.contains(other)
                    || other == room by {
                    if next.contains(other) {
                        let k = choose|k: int| 0 <= k < next.len() && next[k] == other;
                        if k < at {
                            assert(seen[k] == other);
                        }
                    }
                    if seen.contains(other) {
                        let k = choose|k: int| 0 <= k < seen.len() && seen[k] == other;
                        assert(next[k] == other);
                    }
                    if other == room {
                        assert(next[at as int] == other);
                    }
                }
            }
            match self.rooms.get(room) {
                Some(entry) => {
                    if !self.is_hidden(upgrades, room) {
                        let ranked = Ranked::new(room, entry.name.as_str(), entry.messages.updated());
                        if entry.direct.is_some() {
                            let ghost before = direct@;
                            assert forall|i: int| 0 <= i < before.len() implies (
                            #[trigger] before[i]).room != room by {
                                assert(rooms_of(before)[i] == before[i].room);
                                assert(rooms_of(before).contains(before[i].room));
                            }
                            place(&mut direct, ranked, sorting);
                            proof {
                                lemma_placed_rooms(before, direct@, ranked);
                            }
                        } else {
                            let ghost before = groups@;
                            assert forall|i: int| 0 <= i < before.len() implies (
                            #[trigger] before[i]).room != room by {
                                assert(rooms_of(before)[i] == before[i].room);
                                assert(rooms_of(before).contains(before[i].room));
                            }
                            place(&mut groups, ranked, sorting);
                            proof {
                                lemma_placed_rooms(before, groups@, ranked);
                            }
                        }
                    }
                },
                None => {},
            }
            at += 1;
        }
        assert(ids@.take(ids@.len() as int) =~= ids@);
        let list = RoomList { direct: rooms_in(&direct), groups: rooms_in(&groups) };
        proof {
            self.lemma_ranks_listed(upgrades@, true, ids@, direct@);
            self.lemma_ranks_listed(upgrades@, false, ids@, groups@);
        }
        list
    }

    /// Whether a list holds the rooms among `seen` that belong in it, each
    /// with its rank, in their order.
    spec fn ranks(
        &self,
        upgrades: Seq<(RoomId, RoomId)>,
        direct: bool,
        seen: Seq<RoomId>,
        list: Seq<Ranked>,
    ) -> bool {
        &&& in_order(self@.sorting, list)
        &&& forall|i: int|
            0 <= i < list.len() ==> self@.rooms.contains_key((#[trigger] list[i]).room)
                && list[i].rank() == rank_of(self@.rooms[list[i].room])
        &&& forall|room: RoomId|
            rooms_of(list).contains(room) <==> seen.contains(room) && belongs(
                self@.rooms,
                upgrades,
                direct,
                room,
            )
    }

    /// A list that holds the rooms that belong in it, each with its rank,
    /// in their order, is the room list.
    proof fn lemma_ranks_listed(
        &self,
        upgrades: Seq<(RoomId, RoomId)>,
        direct: bool,
        ids: Seq<RoomId>,
        list: Seq<Ranked>,
    )
        requires
            self.ranks(upgrades, direct, ids, list),
            forall|room: RoomId| ids.contains(room) <==> self@.rooms.contains_key(room),
        ensures
            listed(self@.rooms, upgrades, self@.sorting, direct, rooms_of(list)),
    {
        let rooms = rooms_of(list);
        assert forall|room: RoomId| rooms.contains(room) <==> belongs(
            self@.rooms,
            upgrades,
            direct,
            room,
        ) by {
            assert(ids.contains(room) <==> self@.rooms.contains_key(room));
        }
        assert forall|i: int, j: int| 0 <= i < j < rooms.len() implies stands_before(
            self@.sorting,
            self@.rooms,
            rooms[i],
            rooms[j],
        ) by {
            assert(rooms[i] == list[i].room && rooms[j] == list[j].room);
        }
    }

    /// Whether a room has an entry.
    pub fn has_room(&self, id: RoomId) -> (found: bool)
        ensures
            found == self@.rooms.contains_key(id),
    {
        self.rooms.contains(id)
    }
}

/// The events of a page that could be read, in the page's order.
fn read_events(raw: Vec<Option<RoomEvent>>, events: &mut Vec<RoomEvent>)
    ensures
        final(events)@ == old(events)@ + readable(raw@),
{
    assert(raw@.take(0) =~= Seq::<Option<RoomEvent>>::empty());
    for item in it: raw
        invariant
            it.seq() == raw@,
            events@ == old(events)@ + readable(raw@.take(it.index() as int)),
    {
        proof {
            let upto = raw@.take(it.index() + 1);
            assert(upto.drop_last() =~= raw@.take(it.index() as int));
            assert(upto.last() == item);
        }
        match item {
            Some(event) => {
                events.push(event);
            },
            None => {},
        }
    }
    assert(raw@.take(raw@.len() as int) =~= raw@);
}

impl MainView {
    /// Shows an error.
    fn show_error(&mut self, error: String)
        ensures
            final(self)@ == old(self)@.with_error(error@),
            old(self).wf() ==> final(self).wf(),
    {
        self.error = Some(error);
    }

    /// Decides what is to be done to show an image.
    pub fn fetch_image(&mut self, url: String) -> (commands: Vec<Command>)
        requires
            old(self).wf(),
        ensures
            final(self).wf(),
            (final(self)@, actions(commands@)) == old(self)@.fetch_image(url@),
    {
        match parse_mxc(url.as_str()) {
            Ok((server, media)) => {
                let commands = vec![Command::FetchImage { url, server, media }];
                assert(actions(commands@) =~= seq![
                    CommandModel::FetchImage { url: url@, server: server@, media: media@ },
                ]);
                commands
            },
            Err(error) => {
                self.show_error(error.message());
                let commands = Vec::new();
                assert(actions(commands@) =~= Seq::empty());
                commands
            },
        }
    }

    /// Decides what is to be done to show the images of a list of events.
    fn fetch_images(&mut self, events: &Vec<RoomEvent>) -> (commands: Vec<Command>)
        requires
            old(self).wf(),
        ensures
            final(self).wf(),
            (final(self)@, actions(commands@)) == old(self)@.fetch_images(events@),
            final(self)@.rooms == old(self)@.rooms,
    {
        let mut commands: Vec<Command> = Vec::new();
        let mut at: usize = 0;
        assert(events@.take(0) =~= Seq::<RoomEvent>::empty());
        assert(actions(commands@) =~= Seq::empty());
        while at < events.len()
            invariant
                at <= events@.len(),
                self.wf(),
                (self@, actions(commands@)) == old(self)@.fetch_images(events@.take(at as int)),
                self@.rooms == old(self)@.rooms,
            decreases events@.len() - at,
        {
            proof {
                let upto = events@.take(at + 1);
                assert(upto.drop_last() =~= events@.take(at as int));
                assert(upto.last() == events@[at as int]);
            }
            match events[at].image_url() {
                Some(url) => {
                    let ghost before = actions(commands@);
                    let mut more = self.fetch_image(url);
                    let ghost added = actions(more@);
                    commands.append(&mut more);
                    assert(actions(commands@) =~= before + added);
                },
                None => {},
            }
            at += 1;
        }
        assert(events@.take(events@.len() as int) =~= events@);
        commands
    }

    /// Decides whether a page of a room's history is asked for.
    pub fn backfill(&mut self, room: RoomId) -> (commands: Vec<Command>)
        requires
            old(self).wf(),
        ensures
            final(self).wf(),
            (final(self)@, actions(commands@)) == old(self)@.backfill(room),
    {
        let entry = self.rooms.entry_mut(room);
        match entry.messages.backfill_state() {
            BackfillState::Idle => {
                let from = match entry.messages.start_backfill() {
                    Some(end) => end,
                    None => match &entry.prev_batch {
                        Some(cursor) => cursor.clone(),
                        None => self.sync_token.clone(),
                    },
                };
                assert(self@.rooms =~= old(self)@.backfill(room).0.rooms);
                Self::only(Command::BackFill { room, from, limit: PAGE_LIMIT })
            },
            _ => {
                assert(self@.rooms =~= old(self)@.backfill(room).0.rooms);
                Self::nothing()
            },
        }
    }

    /// Merges a page of a room's history.
    pub fn backfilled(&mut self, room: RoomId, response: MessageResponse) -> (commands: Vec<Command>)
        requires
            old(self).wf(),
        ensures
            final(self).wf(),
            (final(self)@, actions(commands@)) == old(self)@.backfilled(room, response),
    {
        let MessageResponse { chunk, state, start, end } = response;
        let mut events: Vec<RoomEvent> = Vec::new();
        read_events(chunk, &mut events);
        read_events(state, &mut events);
        assert(events@ =~= MainModel::page(response));
        let commands = self.fetch_images(&events);
        self.rooms.entry_mut(room).messages.finish_backfill(events, start, end);
        assert(self@.rooms =~= old(self)@.backfilled(room, response).0.rooms);
        commands
    }

    /// Takes note that the request for a page of a room's history failed.
    pub fn backfill_failed(&mut self, room: RoomId, error: String)
        requires
            old(self).wf(),
        ensures
            final(self).wf(),
            final(self)@ == old(self)@.backfill_failed(room, error@),
    {
        self.show_error(error);
        self.rooms.entry_mut(room).messages.fail_backfill();
        assert(self@.rooms =~= old(self)@.backfill_failed(room, error@).rooms);
    }

    /// Selects a room.
    pub fn select(&mut self, room: RoomId) -> (commands: Vec<Command>)
        requires
            old(self).wf(),
        ensures
            final(self).wf(),
            (final(self)@, actions(commands@)) == old(self)@.select(room),
    {
        self.selected = Some(room);
        assert(self@.rooms == old(self)@.rooms);
        let empty = match self.rooms.get(room) {
            Some(entry) => entry.messages.is_empty(),
            None => true,
        };
        if empty {
            self.backfill(room)
        } else {
            let commands = Vec::new();
            assert(actions(commands@) =~= Seq::empty());
            commands
        }
    }

    /// What is done with an event of a joined room.
    fn route(&self, event: &RoomEvent) -> (route: Route)
        ensures
            route == self@.route(*event),
    {
        match &event.kind {
            EventKind::State(StateEvent::RoomCreate) => Route::Create,
            EventKind::State(StateEvent::RoomMember { state_key, membership }) => {
                if *state_key == self.session.user_id {
                    match membership {
                        Membership::Join => Route::Join,
                        Membership::Leave => Route::Leave,
                        _ => Route::Keep,
                    }
                } else {
                    Route::Keep
                }
            },
            _ => Route::Keep,
        }
    }

    /// Hands an event to the entry of its room.
    pub fn receive(&mut self, event: RoomEvent)
        requires
            old(self).wf(),
        ensures
            final(self).wf(),
            final(self)@ == old(self)@.received(event),
    {
        let room = event.room;
        self.rooms.entry_mut(room).receive(event);
        assert(self@.rooms =~= old(self)@.received(event).rooms);
    }

    /// Takes a room out of the registry and out of the selection.
    pub fn leave(&mut self, room: RoomId)
        requires
            old(self).wf(),
        ensures
            final(self).wf(),
            final(self)@ == old(self)@.without_room(room),
    {
        if self.selected == Some(room) {
            self.selected = None;
        }
        self.rooms.remove(room);
    }

    /// Decides what an event of a joined room changes.
    pub fn joined(&mut self, event: RoomEvent) -> (commands: Vec<Command>)
        requires
            old(self).wf(),
        ensures
            final(self).wf(),
            (final(self)@, actions(commands@)) == old(self)@.joined(event),
    {
        let room = event.room;
        match self.route(&event) {
            Route::Create => {
                let commands = vec![Command::FetchRoom { room, event: Some(event) }];
                assert(actions(commands@) =~= seq![
                    CommandModel::FetchRoom { room, event: Some(event) },
                ]);
                commands
            },
            Route::Join => {
                let _ = self.rooms.entry_mut(room);
                assert(self@.rooms =~= old(self)@.joined(event).0.rooms);
                let commands = vec![Command::FetchRoom { room, event: None }];
                assert(actions(commands@) =~= seq![CommandModel::FetchRoom { room, event: None }]);
                commands
            },
            Route::Leave => {
                self.leave(room);
                let commands = Vec::new();
                assert(actions(commands@) =~= Seq::empty());
                commands
            },
            Route::Keep => {
                let image = event.image_url();
                self.receive(event);
                match image {
                    Some(url) => self.fetch_image(url),
                    None => {
                        let commands = Vec::new();
                        assert(actions(commands@) =~= Seq::empty());
                        commands
                    },
                }
            },
        }
    }

    /// Closes the verification flow and shows why.
    fn verification_cancelled(&mut self, code: String)
        ensures
            final(self)@ == old(self)@.verification_cancelled(code@),
            old(self).wf() ==> final(self).wf(),
    {
        self.sas = false;
        self.error = Some(code);
    }

    /// Decides what an item of the live stream changes.
    pub fn sync(&mut self, event: Event) -> (commands: Vec<Command>)
        requires
            old(self).wf(),
        ensures
            final(self).wf(),
            (final(self)@, actions(commands@)) == old(self)@.sync(event),
    {
        match event {
            Event::Joined(event) => self.joined(event),
            Event::ToDevice(ToDeviceEvent::KeyVerificationStart { sender, transaction_id }) => {
                Self::only(Command::GetVerification { sender, transaction_id })
            },
            Event::ToDevice(ToDeviceEvent::KeyVerificationCancel { code }) => {
                self.verification_cancelled(code);
                let commands = Vec::new();
                assert(actions(commands@) =~= Seq::empty());
                commands
            },
            Event::Token(token) => {
                self.sync_token = token;
                assert(self@.rooms == old(self)@.rooms);
                let commands = Vec::new();
                assert(actions(commands@) =~= Seq::empty());
                commands
            },
            _ => {
                let commands = Vec::new();
                assert(actions(commands@) =~= Seq::empty());
                commands
            },
        }
    }

    /// The command of a step of the verification flow, if one is open.
    fn verification(&self, command: Command) -> (commands: Vec<Command>)
        ensures
            actions(commands@) == self@.verification(command@),
    {
        let commands = if self.sas {
            vec![command]
        } else {
            Vec::new()
        };
        assert(actions(commands@) =~= self@.verification(command@));
        commands
    }

    /// No command.
    fn nothing() -> (commands: Vec<Command>)
        ensures
            actions(commands@) == Seq::<CommandModel>::empty(),
    {
        let commands = Vec::new();
        assert(actions(commands@) =~= Seq::empty());
        commands
    }

    /// One command.
    fn only(command: Command) -> (commands: Vec<Command>)
        ensures
            actions(commands@) == seq![command@],
    {
        let commands = vec![command];
        assert(actions(commands@) =~= seq![command@]);
        commands
    }

    /// Takes a message: changes the state as the message asks and returns
    /// the commands that the caller is to carry out.
    pub fn update(&mut self, message: Message) -> (commands: Vec<Command>)
        requires
            old(self).wf(),
            message.wf(),
        ensures
            final(self).wf(),
            (final(self)@, actions(commands@)) == old(self)@.update(message),
    {
        match message {
            Message::ErrorMessage(error) => {
                self.show_error(error);
                Self::nothing()
            },
            Message::ClearError => {
                self.error = None;
                Self::nothing()
            },
            Message::SetSort(sorting) => {
                self.sorting = sorting;
                Self::nothing()
            },
            Message::ResetRoom(room, entry) => {
                self.rooms.insert(room, entry);
                self.backfill(room)
            },
            Message::RoomName(room, name) => {
                if self.rooms.contains(room) {
                    self.rooms.entry_mut(room).name = name;
                    assert(self@.rooms =~= old(self)@.update(message).0.rooms);
                }
                Self::nothing()
            },
            Message::SelectRoom(room) => self.select(room),
            Message::Sync(event) => self.sync(event),
            Message::BackFill(room) => self.backfill(room),
            Message::BackFilled(room, response) => self.backfilled(room, response),
            Message::BackFillFailed(room, error) => {
                self.backfill_failed(room, error);
                Self::nothing()
            },
            Message::FetchImage(url) => self.fetch_image(url),
            Message::SetVerification(sas) => {
                self.sas = sas;
                Self::nothing()
            },
            Message::VerificationAccept => self.verification(Command::AcceptVerification),
            Message::VerificationConfirm => self.verification(Command::ConfirmVerification),
            Message::VerificationCancel => self.verification(Command::CancelVerification),
            Message::VerificationCancelled(code) => {
                self.verification_cancelled(code);
                Self::nothing()
            },
            Message::VerificationClose => {
                self.sas = false;
                Self::nothing()
            },
            Message::SetMessage(draft) => {
                self.draft = draft;
                Self::nothing()
            },
            Message::SendMessage => match self.selected {
                Some(room) => Self::only(Command::SendMessage { room, body: self.draft.clone() }),
                None => Self::nothing(),
            },
            Message::OpenSettings => {
                self.settings_view = Some(SettingsView::new());
                Self::only(Command::FetchDisplayName)
            },
            Message::SetDisplayNameInput(name) => {
                match &mut self.settings_view {
                    Some(settings) => {
                        settings.display_name = name;
                    },
                    None => {},
                }
                Self::nothing()
            },
            Message::SaveDisplayName => {
                match &mut self.settings_view {
                    Some(settings) => {
                        settings.saving_name = true;
                        Self::only(Command::SaveDisplayName(settings.display_name.clone()))
                    },
                    None => Self::nothing(),
                }
            },
            Message::DisplayNameSaved => {
                match &mut self.settings_view {
                    Some(settings) => {
                        settings.saving_name = false;
                    },
                    None => {},
                }
                Self::nothing()
            },
            Message::SetKeyPath(path) => {
                match &mut self.settings_view {
                    Some(settings) => {
                        settings.key_path = path;
                    },
                    None => {},
                }
                Self::nothing()
            },
            Message::SetKeyPassword(password) => {
                match &mut self.settings_view {
                    Some(settings) => {
                        settings.key_password = password;
                    },
                    None => {},
                }
                Self::nothing()
            },
            Message::ImportKeys => match &self.settings_view {
                Some(settings) => Self::only(
                    Command::ImportKeys {
                        path: settings.key_path.clone(),
                        password: settings.key_password.clone(),
                    },
                ),
                None => Self::nothing(),
            },
            Message::CloseSettings => {
                self.settings_view = None;
                Self::nothing()
            },
            _ => Self::nothing(),
        }
    }
}

} // verus!
