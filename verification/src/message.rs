//! What the client is told and what it asks for.
//!
//! The client decides and the caller acts: a message tells the client what
//! has happened, and a command names what the caller is to carry out. What
//! a command brings back comes in as a later message.
use crate::event::{text_of, RoomEvent, RoomId};
use crate::prompt::PromptAction;
use crate::room::RoomEntry;
use crate::session::{Session, SessionModel};
use crate::sync::Event;
use vstd::prelude::*;

verus! {

/// The number of events asked for in one page of history.
pub const PAGE_LIMIT: u32 = 30;

/// In what order the room list is sorted.
#[derive(Debug, Clone, Copy, PartialEq, Eq, Structural)]
pub enum RoomSorting {
    Recent,
    Alphabetic,
}

/// A page of history as the server answered it. An event that could not
/// be read stands as `None`.
#[derive(Debug, Clone)]
pub struct MessageResponse {
    /// The events of the page.
    pub chunk: Vec<Option<RoomEvent>>,
    /// The state events that the page needs.
    pub state: Vec<Option<RoomEvent>>,
    /// The cursor at the start of the page, if the server gave one.
    pub start: Option<String>,
    /// The cursor at the end of the page, if the server gave one.
    pub end: Option<String>,
}

/// What the client is told.
#[derive(Debug, Clone)]
pub enum Message {
    /// Do nothing
    Noop,
    // Login form messages
    SetUser(String),
    SetPassword(String),
    SetServer(String),
    SetDeviceName(String),
    SetAction(PromptAction),
    Login,
    Signup,
    // Auth result messages
    /// The login succeeded; the rooms are those that the user has joined.
    LoggedIn(Session, Vec<RoomId>),
    LoginFailed(String),
    // Main state messages
    /// Reset state for room
    ResetRoom(RoomId, RoomEntry),
    RoomName(RoomId, String),
    /// Get backfill for given room
    BackFill(RoomId),
    /// Received backfill
    BackFilled(RoomId, MessageResponse),
    /// The request for backfill failed
    BackFillFailed(RoomId, String),
    /// Fetch an image pointed to by an mxc url
    FetchImage(String),
    /// View messages from this room
    SelectRoom(RoomId),
    /// Set error message
    ErrorMessage(String),
    /// Close error message
    ClearError,
    /// Set how the room list is sorted
    SetSort(RoomSorting),
    /// Set whether a verification flow is open
    SetVerification(bool),
    /// Accept verification flow
    VerificationAccept,
    /// Accept sent
    VerificationAccepted,
    /// Confirm keys match
    VerificationConfirm,
    /// Confirmation sent
    VerificationConfirmed,
    /// Cancel verification flow
    VerificationCancel,
    /// Verification flow cancelled
    VerificationCancelled(String),
    /// Close verification bar
    VerificationClose,
    /// Matrix event received
    Sync(Event),
    /// Update the sync token to use
    SyncToken(String),
    /// Set contents of message compose box
    SetMessage(String),
    /// Send the contents of the compose box to the selected room
    SendMessage,
    // Settings messages
    /// Open settings menu
    OpenSettings,
    /// Close settings menu
    CloseSettings,
    /// Set display name input field
    SetDisplayNameInput(String),
    /// Save new display name
    SaveDisplayName,
    /// New display name saved successfully
    DisplayNameSaved,
    /// Set key import path
    SetKeyPath(String),
    /// Set password key backup is encrypted with
    SetKeyPassword(String),
    /// Import encryption keys
    ImportKeys,
}

impl Message {
    /// A message is valid when the room entry it carries is.
    pub open spec fn wf(self) -> bool {
        match self {
            Message::ResetRoom(_, entry) => entry.wf(),
            _ => true,
        }
    }
}

/// What the caller is to carry out.
#[derive(Debug, Clone)]
pub enum Command {
    /// Log in with these credentials; the result is `LoggedIn` or `LoginFailed`.
    Login { user: String, password: String, server: String, device_name: Option<String> },
    /// Register an account with these credentials; the result is `LoggedIn` or `LoginFailed`.
    Signup { user: String, password: String, server: String, device_name: Option<String> },
    /// Take up a saved session; the result is `LoggedIn` or `LoginFailed`.
    RestoreLogin(Session),
    /// Fetch a snapshot of the room, build its entry, push the event into
    /// it if there is one; the result is `ResetRoom`.
    FetchRoom { room: RoomId, event: Option<RoomEvent> },
    /// Fetch the room's avatar in small.
    FetchThumbnail(RoomId),
    /// Ask for the page of history before the cursor; the result is
    /// `BackFilled` or `BackFillFailed`.
    BackFill { room: RoomId, from: String, limit: u32 },
    /// Download the media of a content reference.
    FetchImage { url: String, server: String, media: String },
    /// Look up the verification flow of a transaction with a user; the
    /// result is `SetVerification`.
    GetVerification { sender: String, transaction_id: String },
    /// Accept the open verification flow.
    AcceptVerification,
    /// Confirm that the keys of the open verification flow match.
    ConfirmVerification,
    /// Cancel the open verification flow.
    CancelVerification,
    /// Send a text message to a room.
    SendMessage { room: RoomId, body: String },
    /// Fetch the user's own display name; the result is `SetDisplayNameInput`.
    FetchDisplayName,
    /// Set the user's own display name; the result is `DisplayNameSaved`.
    SaveDisplayName(String),
    /// Import encryption keys from a file.
    ImportKeys { path: String, password: String },
}

/// The mathematical value of a command.
pub enum CommandModel {
    Login { user: Seq<char>, password: Seq<char>, server: Seq<char>, device_name: Option<Seq<char>> },
    Signup {
        user: Seq<char>,
        password: Seq<char>,
        server: Seq<char>,
        device_name: Option<Seq<char>>,
    },
    RestoreLogin(SessionModel),
    FetchRoom { room: RoomId, event: Option<RoomEvent> },
    FetchThumbnail(RoomId),
    BackFill { room: RoomId, from: Seq<char>, limit: u32 },
    FetchImage { url: Seq<char>, server: Seq<char>, media: Seq<char> },
    GetVerification { sender: Seq<char>, transaction_id: Seq<char> },
    AcceptVerification,
    ConfirmVerification,
    CancelVerification,
    SendMessage { room: RoomId, body: Seq<char> },
    FetchDisplayName,
    SaveDisplayName(Seq<char>),
    ImportKeys { path: Seq<char>, password: Seq<char> },
}

impl View for Command {
    type V = CommandModel;

    open spec fn view(&self) -> CommandModel {
        match *self {
            Command::Login { user, password, server, device_name } => CommandModel::Login {
                user: user@,
                password: password@,
                server: server@,
                device_name: text_of(device_name),
            },
            Command::Signup { user, password, server, device_name } => CommandModel::Signup {
                user: user@,
                password: password@,
                server: server@,
                device_name: text_of(device_name),
            },
            Command::RestoreLogin(session) => CommandModel::RestoreLogin(session@),
            Command::FetchRoom { room, event } => CommandModel::FetchRoom { room, event },
            Command::FetchThumbnail(room) => CommandModel::FetchThumbnail(room),
            Command::BackFill { room, from, limit } => CommandModel::BackFill {
                room,
                from: from@,
                limit,
            },
            Command::FetchImage { url, server, media } => CommandModel::FetchImage {
                url: url@,
                server: server@,
                media: media@,
            },
            Command::GetVerification { sender, transaction_id } => CommandModel::GetVerification {
                sender: sender@,
                transaction_id: transaction_id@,
            },
            Command::AcceptVerification => CommandModel::AcceptVerification,
            Command::ConfirmVerification => CommandModel::ConfirmVerification,
            Command::CancelVerification => CommandModel::CancelVerification,
            Command::SendMessage { room, body } => CommandModel::SendMessage { room, body: body@ },
            Command::FetchDisplayName => CommandModel::FetchDisplayName,
            Command::SaveDisplayName(name) => CommandModel::SaveDisplayName(name@),
            Command::ImportKeys { path, password } => CommandModel::ImportKeys {
                path: path@,
                password: password@,
            },
        }
    }
}

/// The values of a list of commands.
pub open spec fn actions(commands: Seq<Command>) -> Seq<CommandModel> {
    commands.map_values(|command: Command| command@)
}

/// The events of a page that could be read, in the page's order.
pub open spec fn readable(raw: Seq<Option<RoomEvent>>) -> Seq<RoomEvent>
    decreases raw.len(),
{
    if raw.len() == 0 {
        Seq::empty()
    } else {
        match raw.last() {
            Some(event) => readable(raw.drop_last()).push(event),
            None => readable(raw.drop_last()),
        }
    }
}

} // verus!
