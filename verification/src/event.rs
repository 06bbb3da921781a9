//! Room events as the timeline cache sees them.
//!
//! An event keeps what the cache and the dispatcher read: its identifier, the
//! room it belongs to, the time the server gave it, and a closed
//! classification with the few payload fields that change room metadata.
//! Identifiers are opaque integer handles; whoever feeds the cache owns the
//! table that maps them to their textual form.
use vstd::prelude::*;

verus! {

/// Handle of an event. Two events are the same event iff their handles are equal.
pub type EventId = u64;

/// Handle of a room.
pub type RoomId = u64;

/// Milliseconds since the Unix epoch, as given by the origin server.
pub type Timestamp = u64;

/// How a message refers to an earlier event.
#[derive(Debug, Clone, Copy, PartialEq, Eq, Structural)]
pub enum Relation {
    /// The message supersedes the content of the target (an edit).
    Replacement(EventId),
    /// The message voids the target.
    Redaction(EventId),
}

/// Membership of a user in a room, as a member event states it.
#[derive(Debug, Clone, Copy, PartialEq, Eq, Structural)]
pub enum Membership {
    Ban,
    Invite,
    Join,
    Knock,
    Leave,
    Other,
}

/// A message event: its relation to an earlier event, if it has one, and the
/// content reference of the image it shows, if it is an image message with one.
#[derive(Debug)]
pub struct MessageEvent {
    pub relation: Option<Relation>,
    pub image: Option<String>,
}

/// A state event, tagged by what it sets.
#[derive(Debug)]
pub enum StateEvent {
    RoomCanonicalAlias { alias: Option<String> },
    RoomName { name: Option<String> },
    RoomTopic { topic: String },
    RoomAvatar { url: Option<String> },
    RoomCreate,
    RoomMember { state_key: String, membership: Membership },
    RoomTombstone,
    Other,
}

/// The closed classification of room events.
#[derive(Debug)]
pub enum EventKind {
    Message(MessageEvent),
    RedactedMessage,
    State(StateEvent),
    RedactedState,
}

/// One unit of room activity.
#[derive(Debug)]
pub struct RoomEvent {
    pub id: EventId,
    pub room: RoomId,
    pub timestamp: Timestamp,
    pub kind: EventKind,
}

/// A room event as the live stream delivers it: the room is known from the
/// place in the response, not from the event.
#[derive(Debug)]
pub struct SyncRoomEvent {
    pub id: EventId,
    pub timestamp: Timestamp,
    pub kind: EventKind,
}

/// The view of an optional string.
pub open spec fn text_of(value: Option<String>) -> Option<Seq<char>> {
    match value {
        Some(text) => Some(text@),
        None => None,
    }
}

/// A copy of an optional string.
pub fn clone_text(value: &Option<String>) -> (copy: Option<String>)
    ensures
        copy == *value,
{
    match value {
        Some(text) => Some(text.clone()),
        None => None,
    }
}

impl Clone for MessageEvent {
    fn clone(&self) -> (copy: Self)
        ensures
            copy == *self,
    {
        MessageEvent { relation: self.relation, image: clone_text(&self.image) }
    }
}

impl Clone for StateEvent {
    fn clone(&self) -> (copy: Self)
        ensures
            copy == *self,
    {
        match self {
            StateEvent::RoomCanonicalAlias { alias } => StateEvent::RoomCanonicalAlias {
                alias: clone_text(alias),
            },
            StateEvent::RoomName { name } => StateEvent::RoomName { name: clone_text(name) },
            StateEvent::RoomTopic { topic } => StateEvent::RoomTopic { topic: topic.clone() },
            StateEvent::RoomAvatar { url } => StateEvent::RoomAvatar { url: clone_text(url) },
            StateEvent::RoomCreate => StateEvent::RoomCreate,
            StateEvent::RoomMember { state_key, membership } => StateEvent::RoomMember {
                state_key: state_key.clone(),
                membership: *membership,
            },
            StateEvent::RoomTombstone => StateEvent::RoomTombstone,
            StateEvent::Other => StateEvent::Other,
        }
    }
}

impl Clone for EventKind {
    fn clone(&self) -> (copy: Self)
        ensures
            copy == *self,
    {
        match self {
            EventKind::Message(message) => EventKind::Message(message.clone()),
            EventKind::RedactedMessage => EventKind::RedactedMessage,
            EventKind::State(state) => EventKind::State(state.clone()),
            EventKind::RedactedState => EventKind::RedactedState,
        }
    }
}

impl Clone for RoomEvent {
    fn clone(&self) -> (copy: Self)
        ensures
            copy == *self,
    {
        RoomEvent {
            id: self.id,
            room: self.room,
            timestamp: self.timestamp,
            kind: self.kind.clone(),
        }
    }
}

impl Clone for SyncRoomEvent {
    fn clone(&self) -> (copy: Self)
        ensures
            copy == *self,
    {
        SyncRoomEvent { id: self.id, timestamp: self.timestamp, kind: self.kind.clone() }
    }
}

impl EventKind {
    /// The event that this one replaces or redacts, if any.
    pub open spec fn target(self) -> Option<EventId> {
        match self {
            EventKind::Message(message) => match message.relation {
                Some(Relation::Replacement(target)) => Some(target),
                Some(Relation::Redaction(target)) => Some(target),
                None => None,
            },
            _ => None,
        }
    }

    /// Whether this is the state event that creates a room.
    pub open spec fn is_create(self) -> bool {
        self matches EventKind::State(StateEvent::RoomCreate)
    }

    /// The content reference of the image this event shows, if any.
    pub open spec fn image(self) -> Option<Seq<char>> {
        match self {
            EventKind::Message(message) => text_of(message.image),
            _ => None,
        }
    }
}

impl RoomEvent {
    /// The event that this one replaces or redacts, if any.
    pub open spec fn target(self) -> Option<EventId> {
        self.kind.target()
    }

    /// The event that this one replaces or redacts, if any.
    pub fn relation_target(&self) -> (target: Option<EventId>)
        ensures
            target == self.target(),
    {
        match &self.kind {
            EventKind::Message(message) => match message.relation {
                Some(Relation::Replacement(target)) => Some(target),
                Some(Relation::Redaction(target)) => Some(target),
                None => None,
            },
            _ => None,
        }
    }

    /// Whether this is the state event that creates a room.
    pub fn is_room_create(&self) -> (create: bool)
        ensures
            create == self.kind.is_create(),
    {
        match &self.kind {
            EventKind::State(StateEvent::RoomCreate) => true,
            _ => false,
        }
    }
}

/// Accessors shared by all room events.
pub trait AnyRoomEventExt {
    /// Gets the event id of the underlying event
    fn event_id(&self) -> EventId;

    /// Gets the `origin_server_ts` member of the underlying event
    fn origin_server_ts(&self) -> Timestamp;

    /// Gets the content reference of the image in a message event if there is one
    fn image_url(&self) -> Option<String>;
}

impl AnyRoomEventExt for RoomEvent {
    fn event_id(&self) -> (id: EventId)
        ensures
            id == self.id,
    {
        self.id
    }

    fn origin_server_ts(&self) -> (timestamp: Timestamp)
        ensures
            timestamp == self.timestamp,
    {
        self.timestamp
    }

    fn image_url(&self) -> (url: Option<String>)
        ensures
            text_of(url) == self.kind.image(),
    {
        match &self.kind {
            EventKind::Message(message) => message.image_url(),
            _ => None,
        }
    }
}

/// The image of a message event.
pub trait AnyMessageEventExt {
    fn image_url(&self) -> Option<String>;
}

impl AnyMessageEventExt for MessageEvent {
    fn image_url(&self) -> (url: Option<String>)
        ensures
            text_of(url) == text_of(self.image),
    {
        clone_text(&self.image)
    }
}

/// Completion of a live-stream event with the room it arrived in.
pub trait AnySyncRoomEventExt {
    fn into_full_event(self, room_id: RoomId) -> RoomEvent;
}

impl AnySyncRoomEventExt for SyncRoomEvent {
    fn into_full_event(self, room_id: RoomId) -> (event: RoomEvent)
        ensures
            event == (RoomEvent { id: self.id, room: room_id, timestamp: self.timestamp, kind: self.kind }),
    {
        RoomEvent { id: self.id, room: room_id, timestamp: self.timestamp, kind: self.kind }
    }
}

} // verus!
