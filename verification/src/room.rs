//! What the client keeps of one room: its metadata and its timeline.
use crate::buffer::{MessageBuffer, Timeline};
use crate::event::{clone_text, text_of, EventKind, RoomEvent, RoomId, StateEvent};
use crate::timeline::pushed;
use vstd::prelude::*;
use vstd::string::StringExecFns;

verus! {

/// The decimal digit of a number below ten.
pub open spec fn digit_char(digit: nat) -> char {
    if digit == 0 {
        '0'
    } else if digit == 1 {
        '1'
    } else if digit == 2 {
        '2'
    } else if digit == 3 {
        '3'
    } else if digit == 4 {
        '4'
    } else if digit == 5 {
        '5'
    } else if digit == 6 {
        '6'
    } else if digit == 7 {
        '7'
    } else if digit == 8 {
        '8'
    } else {
        '9'
    }
}

/// A number in decimal digits, without leading zeros.
pub open spec fn decimal(number: nat) -> Seq<char>
    decreases number,
{
    if number < 10 {
        seq![digit_char(number)]
    } else {
        decimal(number / 10).push(digit_char(number % 10))
    }
}

/// The name of a room of which nothing but its handle is known.
pub open spec fn fallback_name(room: RoomId) -> Seq<char> {
    "Room "@ + decimal(room as nat)
}

/// The name under which a room is shown: the name it was given, else the
/// user on the other side of a direct conversation, else its canonical
/// alias, else a name made of its handle.
pub open spec fn derived_name(
    display_name: Option<Seq<char>>,
    direct: Option<Seq<char>>,
    alias: Option<Seq<char>>,
    room: RoomId,
) -> Seq<char> {
    match display_name {
        Some(name) => name,
        None => match direct {
            Some(peer) => peer,
            None => match alias {
                Some(alias) => alias,
                None => fallback_name(room),
            },
        },
    }
}

/// The text of a decimal digit.
fn digit_text(digit: u64) -> (text: &'static str)
    requires
        digit < 10,
    ensures
        text@ == seq![digit_char(digit as nat)],
{
    proof {
        reveal_strlit("0");
        reveal_strlit("1");
        reveal_strlit("2");
        reveal_strlit("3");
        reveal_strlit("4");
        reveal_strlit("5");
        reveal_strlit("6");
        reveal_strlit("7");
        reveal_strlit("8");
        reveal_strlit("9");
    }
    let text = if digit == 0 {
        "0"
    } else if digit == 1 {
        "1"
    } else if digit == 2 {
        "2"
    } else if digit == 3 {
        "3"
    } else if digit == 4 {
        "4"
    } else if digit == 5 {
        "5"
    } else if digit == 6 {
        "6"
    } else if digit == 7 {
        "7"
    } else if digit == 8 {
        "8"
    } else {
        "9"
    };
    assert(text@ =~= seq![digit_char(digit as nat)]);
    text
}

/// Writes a number in decimal digits behind a text.
fn write_decimal(number: u64, out: &mut String)
    ensures
        final(out)@ == old(out)@ + decimal(number as nat),
    decreases number,
{
    if number >= 10 {
        write_decimal(number / 10, out);
    }
    out.append(digit_text(number % 10));
    assert(out@ =~= old(out)@ + decimal(number as nat));
}

/// The name of a room of which nothing but its handle is known.
pub fn fallback_room_name(room: RoomId) -> (name: String)
    ensures
        name@ == fallback_name(room),
{
    let mut name = String::from_str("Room ");
    write_decimal(room, &mut name);
    name
}

/// What the client reads from the room as the server's library holds it.
#[derive(Debug)]
pub struct RoomSnapshot {
    /// The user on the other side, if the room is a direct conversation.
    pub direct_target: Option<String>,
    /// The name that is shown for the room.
    pub display_name: String,
    /// The topic, if the room has one.
    pub topic: Option<String>,
    /// The canonical alias, if the room has one.
    pub canonical_alias: Option<String>,
    /// The content reference of the avatar, if the room has one.
    pub avatar_url: Option<String>,
    /// The cursor from which the history before the last known event can
    /// be asked for, if the server gave one.
    pub last_prev_batch: Option<String>,
}

/// The mathematical value of a room entry.
pub struct RoomModel {
    pub name: Seq<char>,
    pub topic: Seq<char>,
    pub alias: Option<Seq<char>>,
    pub display_name: Option<Seq<char>>,
    pub avatar: Option<Seq<char>>,
    pub direct: Option<Seq<char>>,
    pub prev_batch: Option<Seq<char>>,
    pub messages: Timeline,
}

impl RoomModel {
    /// The entry of a room of which nothing is known.
    pub open spec fn empty() -> RoomModel {
        RoomModel {
            name: Seq::empty(),
            topic: Seq::empty(),
            alias: None,
            display_name: None,
            avatar: None,
            direct: None,
            prev_batch: None,
            messages: Timeline::empty(),
        }
    }

    /// The entry that a snapshot of the room gives.
    pub open spec fn from_snapshot(room: RoomSnapshot) -> RoomModel {
        RoomModel {
            name: room.display_name@,
            topic: match room.topic {
                Some(topic) => topic@,
                None => Seq::empty(),
            },
            alias: text_of(room.canonical_alias),
            display_name: None,
            avatar: text_of(room.avatar_url),
            direct: text_of(room.direct_target),
            prev_batch: text_of(room.last_prev_batch),
            messages: Timeline::empty(),
        }
    }

    /// The invariant of an entry is that of its timeline.
    pub open spec fn wf(self) -> bool {
        self.messages.wf()
    }

    /// The name that the derivation policy gives this entry in `room`.
    pub open spec fn derive_name(self, room: RoomId) -> Seq<char> {
        derived_name(self.display_name, self.direct, self.alias, room)
    }

    /// The title over the room's timeline: the name, and behind it in
    /// brackets the user on the other side of a direct conversation, or
    /// else the alias, where the room has one.
    pub open spec fn title(self) -> Seq<char> {
        match self.direct {
            Some(peer) => self.name + " ("@ + peer + ")"@,
            None => match self.alias {
                Some(alias) => self.name + " ("@ + alias + ")"@,
                None => self.name,
            },
        }
    }

    /// The metadata after an event: a name event sets the given name and
    /// the shown name follows; a topic event sets the topic; an alias event
    /// sets the alias, and the shown name follows where no name was given;
    /// an avatar event sets the avatar. Other events change no metadata.
    pub open spec fn patched(self, event: RoomEvent) -> RoomModel {
        match event.kind {
            EventKind::State(StateEvent::RoomName { name }) => {
                let named = RoomModel { display_name: text_of(name), ..self };
                RoomModel { name: named.derive_name(event.room), ..named }
            },
            EventKind::State(StateEvent::RoomTopic { topic }) => RoomModel { topic: topic@, ..self },
            EventKind::State(StateEvent::RoomCanonicalAlias { alias }) => {
                let aliased = RoomModel { alias: text_of(alias), ..self };
                if self.display_name is None {
                    RoomModel { name: aliased.derive_name(event.room), ..aliased }
                } else {
                    aliased
                }
            },
            EventKind::State(StateEvent::RoomAvatar { url }) => RoomModel {
                avatar: text_of(url),
                ..self
            },
            _ => self,
        }
    }

    /// The entry after an event: the metadata is patched and the event
    /// enters the timeline.
    pub open spec fn received(self, event: RoomEvent) -> RoomModel {
        let patched = self.patched(event);
        RoomModel {
            messages: patched.messages.with_events(pushed(patched.messages.events, event)),
            ..patched
        }
    }
}

/// Data for an entry in the room list
#[derive(Debug)]
pub struct RoomEntry {
    /// Cached calculated name
    pub name: String,
    /// Room topic
    pub topic: String,
    /// Canonical alias
    pub alias: Option<String>,
    /// Defined display name
    pub display_name: Option<String>,
    /// mxc url for the rooms avatar
    pub avatar: Option<String>,
    /// Person we're in a direct message with
    pub direct: Option<String>,
    /// Cursor of the history before what the server last knew of the room
    pub prev_batch: Option<String>,
    /// Cache of messages
    pub messages: MessageBuffer,
}

impl View for RoomEntry {
    type V = RoomModel;

    open spec fn view(&self) -> RoomModel {
        RoomModel {
            name: self.name@,
            topic: self.topic@,
            alias: text_of(self.alias),
            display_name: text_of(self.display_name),
            avatar: text_of(self.avatar),
            direct: text_of(self.direct),
            prev_batch: text_of(self.prev_batch),
            messages: self.messages@,
        }
    }
}

impl RoomEntry {
    /// The invariant of an entry is that of its timeline.
    pub open spec fn wf(&self) -> bool {
        self@.wf()
    }

    /// The entry that a snapshot of the room gives: its metadata, and no
    /// event yet.
    pub fn from_sdk(room: &RoomSnapshot) -> (entry: Self)
        ensures
            entry.wf(),
            entry@ == RoomModel::from_snapshot(*room),
    {
        RoomEntry {
            direct: clone_text(&room.direct_target),
            name: room.display_name.clone(),
            topic: match &room.topic {
                Some(topic) => topic.clone(),
                None => String::new(),
            },
            alias: clone_text(&room.canonical_alias),
            display_name: None,
            avatar: clone_text(&room.avatar_url),
            prev_batch: clone_text(&room.last_prev_batch),
            messages: MessageBuffer::default(),
        }
    }

    /// The name under which the room is shown by the derivation policy.
    pub fn derive_name(&self, room: RoomId) -> (name: String)
        ensures
            name@ == self@.derive_name(room),
    {
        match &self.display_name {
            Some(name) => name.clone(),
            None => match &self.direct {
                Some(peer) => peer.clone(),
                None => match &self.alias {
                    Some(alias) => alias.clone(),
                    None => fallback_room_name(room),
                },
            },
        }
    }

    /// The title over the room's timeline: the name, and behind it in
    /// brackets the user on the other side of a direct conversation, or
    /// else the alias, where the room has one.
    pub fn title(&self) -> (title: String)
        ensures
            title@ == self@.title(),
    {
        let detail = match &self.direct {
            Some(peer) => Some(peer),
            None => match &self.alias {
                Some(alias) => Some(alias),
                None => None,
            },
        };
        let mut title = self.name.clone();
        match detail {
            Some(detail) => {
                title.append(" (");
                title.append(detail.as_str());
                title.append(")");
                assert(title@ =~= self.name@ + " ("@ + detail@ + ")"@);
            },
            None => {},
        }
        title
    }

    /// Takes what an event says of the room's metadata.
    fn patch(&mut self, event: &RoomEvent)
        ensures
            final(self)@ == old(self)@.patched(*event),
            final(self).messages == old(self).messages,
    {
        match &event.kind {
            EventKind::State(StateEvent::RoomName { name }) => {
                self.display_name = clone_text(name);
                self.name = self.derive_name(event.room);
            },
            EventKind::State(StateEvent::RoomTopic { topic }) => {
                self.topic = topic.clone();
            },
            EventKind::State(StateEvent::RoomCanonicalAlias { alias }) => {
                self.alias = clone_text(alias);
                if self.display_name.is_none() {
                    self.name = self.derive_name(event.room);
                }
            },
            EventKind::State(StateEvent::RoomAvatar { url }) => {
                self.avatar = clone_text(url);
            },
            _ => {},
        }
    }

    /// Takes an event of this room: the metadata follows a name, topic,
    /// alias or avatar event, and the event enters the timeline.
    pub fn receive(&mut self, event: RoomEvent)
        requires
            old(self).wf(),
        ensures
            final(self).wf(),
            final(self)@ == old(self)@.received(event),
    {
        self.patch(&event);
        self.messages.push(event);
    }
}

impl Default for RoomEntry {
    fn default() -> (entry: Self)
        ensures
            entry.wf(),
            entry@ == RoomModel::empty(),
    {
        RoomEntry {
            name: String::new(),
            topic: String::new(),
            alias: None,
            display_name: None,
            avatar: None,
            direct: None,
            prev_batch: None,
            messages: MessageBuffer::default(),
        }
    }
}

impl Clone for RoomEntry {
    fn clone(&self) -> (copy: Self)
        ensures
            self.wf() ==> copy.wf() && copy@ == self@,
    {
        RoomEntry {
            name: self.name.clone(),
            topic: self.topic.clone(),
            alias: clone_text(&self.alias),
            display_name: clone_text(&self.display_name),
            avatar: clone_text(&self.avatar),
            direct: clone_text(&self.direct),
            prev_batch: clone_text(&self.prev_batch),
            messages: self.messages.clone(),
        }
    }
}

impl Clone for RoomSnapshot {
    fn clone(&self) -> (copy: Self)
        ensures
            copy == *self,
    {
        RoomSnapshot {
            direct_target: clone_text(&self.direct_target),
            display_name: self.display_name.clone(),
            topic: clone_text(&self.topic),
            canonical_alias: clone_text(&self.canonical_alias),
            avatar_url: clone_text(&self.avatar_url),
            last_prev_batch: clone_text(&self.last_prev_batch),
        }
    }
}

} // verus!
