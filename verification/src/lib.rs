//! The core of a Matrix chat client: the per-room timeline cache, the room
//! registry, and the state machines that merge live and historical events
//! into one ordered, deduplicated view of each room.
pub mod auth;
pub mod buffer;
pub mod clock;
pub mod event;
pub mod main_model;
pub mod main_view;
pub mod message;
pub mod mxc;
pub mod prompt;
pub mod registry;
pub mod retrix;
pub mod room;
pub mod room_list;
pub mod session;
pub mod settings;
pub mod sync;
pub mod timeline;

pub use auth::{device_display_name, first_stage};
pub use buffer::{BackfillState, MessageBuffer};
pub use clock::{format_systime, same_day, LAST_INSTANT};
pub use event::{
    AnyMessageEventExt, AnyRoomEventExt, AnySyncRoomEventExt, EventId, EventKind, Membership,
    MessageEvent, Relation, RoomEvent, RoomId, StateEvent, SyncRoomEvent, Timestamp,
};
pub use main_view::{MainView, RoomList};
pub use message::{Command, Message, MessageResponse, RoomSorting, PAGE_LIMIT};
pub use mxc::{classify_mxc, parse_mxc, path_first_segment, MxcError, UrlParts};
pub use prompt::{PromptAction, PromptView};
pub use registry::RoomRegistry;
pub use retrix::Retrix;
pub use room::{RoomEntry, RoomSnapshot};
pub use session::Session;
pub use settings::SettingsView;
pub use sync::{sync_events, Event, JoinedRoom, SyncResponse, ToDeviceEvent};
