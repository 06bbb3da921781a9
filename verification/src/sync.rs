//! What the live event stream delivers.
use crate::event::{AnySyncRoomEventExt, RoomEvent, RoomId, SyncRoomEvent};
use vstd::prelude::*;

verus! {

/// An event sent to this device rather than to a room.
#[derive(Debug)]
pub enum ToDeviceEvent {
    /// A device of the sender asks to verify this one.
    KeyVerificationStart { sender: String, transaction_id: String },
    /// A verification was cancelled, for the reason that the code names.
    KeyVerificationCancel { code: String },
    /// Any other event.
    Other,
}

/// A matrix event that should be passed to the subscription
#[derive(Debug)]
pub enum Event {
    /// An event for an invited room
    Invited(RoomEvent),
    /// An event for a joined room
    Joined(RoomEvent),
    /// An event for a left room
    Left(RoomEvent),
    /// A to-device event
    ToDevice(ToDeviceEvent),
    /// Synchronization token
    Token(String),
}

impl Clone for ToDeviceEvent {
    fn clone(&self) -> (copy: Self)
        ensures
            copy == *self,
    {
        match self {
            ToDeviceEvent::KeyVerificationStart { sender, transaction_id } => {
                ToDeviceEvent::KeyVerificationStart {
                    sender: sender.clone(),
                    transaction_id: transaction_id.clone(),
                }
            },
            ToDeviceEvent::KeyVerificationCancel { code } => ToDeviceEvent::KeyVerificationCancel {
                code: code.clone(),
            },
            ToDeviceEvent::Other => ToDeviceEvent::Other,
        }
    }
}

impl Clone for Event {
    fn clone(&self) -> (copy: Self)
        ensures
            copy == *self,
    {
        match self {
            Event::Invited(event) => Event::Invited(event.clone()),
            Event::Joined(event) => Event::Joined(event.clone()),
            Event::Left(event) => Event::Left(event.clone()),
            Event::ToDevice(event) => Event::ToDevice(event.clone()),
            Event::Token(token) => Event::Token(token.clone()),
        }
    }
}

/// What one answer of the live stream holds for a joined room.
#[derive(Debug, Clone)]
pub struct JoinedRoom {
    /// The room.
    pub room: RoomId,
    /// The state events that the answer brings for the room.
    pub state: Vec<SyncRoomEvent>,
    /// The events of the room's timeline that the answer brings.
    pub timeline: Vec<SyncRoomEvent>,
}

/// One answer of the live stream.
#[derive(Debug, Clone)]
pub struct SyncResponse {
    /// The joined rooms that the answer speaks of.
    pub join: Vec<JoinedRoom>,
    /// The events sent to this device.
    pub to_device: Vec<ToDeviceEvent>,
    /// The position of the stream behind this answer.
    pub next_batch: String,
}

/// A live-stream event completed with its room.
pub open spec fn full_event(event: SyncRoomEvent, room: RoomId) -> RoomEvent {
    RoomEvent { id: event.id, room, timestamp: event.timestamp, kind: event.kind }
}

/// The items that the events of a joined room make, in their order.
pub open spec fn joined_items(room: RoomId, events: Seq<SyncRoomEvent>) -> Seq<Event> {
    events.map_values(|event: SyncRoomEvent| Event::Joined(full_event(event, room)))
}

/// The items of one joined room: its state events before its timeline.
pub open spec fn room_items(update: JoinedRoom) -> Seq<Event> {
    joined_items(update.room, update.state@) + joined_items(update.room, update.timeline@)
}

/// The items of the joined rooms, room by room in the order given.
pub open spec fn rooms_items(rooms: Seq<JoinedRoom>) -> Seq<Event>
    decreases rooms.len(),
{
    if rooms.len() == 0 {
        Seq::empty()
    } else {
        rooms_items(rooms.drop_last()) + room_items(rooms.last())
    }
}

/// The items that the events sent to this device make, in their order.
pub open spec fn device_items(events: Seq<ToDeviceEvent>) -> Seq<Event> {
    events.map_values(|event: ToDeviceEvent| Event::ToDevice(event))
}

/// The items of one answer of the live stream: those of the joined rooms,
/// then those sent to this device, and last the position of the stream.
pub open spec fn sync_items(response: SyncResponse) -> Seq<Event> {
    (rooms_items(response.join@) + device_items(response.to_device@)).push(
        Event::Token(response.next_batch),
    )
}

/// Adds the items of the events of a joined room to a list.
fn push_joined(room: RoomId, events: Vec<SyncRoomEvent>, items: &mut Vec<Event>)
    ensures
        final(items)@ == old(items)@ + joined_items(room, events@),
{
    assert(items@ =~= old(items)@ + joined_items(room, events@.take(0)));
    for event in it: events
        invariant
            it.seq() == events@,
            items@ == old(items)@ + joined_items(room, events@.take(it.index() as int)),
    {
        items.push(Event::Joined(event.into_full_event(room)));
        assert(items@ =~= old(items)@ + joined_items(room, events@.take(it.index() + 1)));
    }
    assert(events@.take(events@.len() as int) =~= events@);
}

/// The items that one answer of the live stream makes: for each joined
/// room its state events and then its timeline, after the rooms the
/// events sent to this device, and last the position of the stream.
pub fn sync_events(response: SyncResponse) -> (items: Vec<Event>)
    ensures
        items@ == sync_items(response),
{
    let SyncResponse { join, to_device, next_batch } = response;
    let mut items: Vec<Event> = Vec::new();
    assert(items@ =~= rooms_items(join@.take(0)));
    for update in it: join
        invariant
            it.seq() == join@,
            items@ == rooms_items(join@.take(it.index() as int)),
    {
        proof {
            let upto = join@.take(it.index() + 1);
            assert(upto.drop_last() =~= join@.take(it.index() as int));
            assert(upto.last() == update);
        }
        let JoinedRoom { room, state, timeline } = update;
        push_joined(room, state, &mut items);
        push_joined(room, timeline, &mut items);
        assert(items@ =~= rooms_items(join@.take(it.index() + 1)));
    }
    assert(join@.take(join@.len() as int) =~= join@);
    let ghost rooms = items@;
    assert(items@ =~= rooms + device_items(to_device@.take(0)));
    for event in it: to_device
        invariant
            it.seq() == to_device@,
            items@ == rooms + device_items(to_device@.take(it.index() as int)),
    {
        items.push(Event::ToDevice(event));
        assert(items@ =~= rooms + device_items(to_device@.take(it.index() + 1)));
    }
    assert(to_device@.take(to_device@.len() as int) =~= to_device@);
    items.push(Event::Token(next_batch));
    items
}

} // verus!
