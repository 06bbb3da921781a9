//! The life of the client: the login prompt, the wait for the login, and
//! the state after it.
use crate::event::RoomId;
use crate::main_model::MainModel;
use crate::main_view::MainView;
use crate::message::{actions, Command, CommandModel, Message};
use crate::prompt::{PromptModel, PromptView};
use crate::session::Session;
use vstd::prelude::*;
use vstd::string::StringExecFns;

verus! {

/// The mathematical value of the client.
pub enum RetrixModel {
    Prompt(PromptModel),
    AwaitLogin,
    LoggedIn(MainModel),
}

/// The commands that fetch what is shown of the rooms that the user has
/// joined: for each room, in the order given, its snapshot and then its
/// avatar in small.
pub open spec fn room_fetches(rooms: Seq<RoomId>) -> Seq<CommandModel>
    decreases rooms.len(),
{
    if rooms.len() == 0 {
        Seq::empty()
    } else {
        room_fetches(rooms.drop_last()).push(
            CommandModel::FetchRoom { room: rooms.last(), event: None },
        ).push(CommandModel::FetchThumbnail(rooms.last()))
    }
}

/// The device name that a prompt asks for: none where the field is empty.
pub open spec fn device_of(prompt: PromptModel) -> Option<Seq<char>> {
    if prompt.device_name.len() == 0 {
        None
    } else {
        Some(prompt.device_name)
    }
}

impl RetrixModel {
    /// The client as it starts: with a saved session it waits for the
    /// login that takes the session up, without one it prompts.
    pub open spec fn new(saved: Option<Session>) -> (RetrixModel, Seq<CommandModel>) {
        match saved {
            Some(session) => (
                RetrixModel::AwaitLogin,
                seq![CommandModel::RestoreLogin(session@)],
            ),
            None => (RetrixModel::Prompt(PromptModel::empty(None)), Seq::empty()),
        }
    }

    /// The client is valid when the state after login is.
    pub open spec fn wf(self) -> bool {
        match self {
            RetrixModel::LoggedIn(view) => view.wf(),
            _ => true,
        }
    }

    /// What a message makes of the prompt.
    pub open spec fn prompted(prompt: PromptModel, message: Message) -> (
        RetrixModel,
        Seq<CommandModel>,
    ) {
        match message {
            Message::SetUser(user) => (
                RetrixModel::Prompt(PromptModel { user: user@, ..prompt }),
                Seq::empty(),
            ),
            Message::SetPassword(password) => (
                RetrixModel::Prompt(PromptModel { password: password@, ..prompt }),
                Seq::empty(),
            ),
            Message::SetServer(server) => (
                RetrixModel::Prompt(PromptModel { server: server@, ..prompt }),
                Seq::empty(),
            ),
            Message::SetDeviceName(name) => (
                RetrixModel::Prompt(PromptModel { device_name: name@, ..prompt }),
                Seq::empty(),
            ),
            Message::SetAction(action) => (
                RetrixModel::Prompt(PromptModel { action, ..prompt }),
                Seq::empty(),
            ),
            Message::Login => (
                RetrixModel::AwaitLogin,
                seq![
                    CommandModel::Login {
                        user: prompt.user,
                        password: prompt.password,
                        server: prompt.server,
                        device_name: device_of(prompt),
                    },
                ],
            ),
            Message::Signup => (
                RetrixModel::AwaitLogin,
                seq![
                    CommandModel::Signup {
                        user: prompt.user,
                        password: prompt.password,
                        server: prompt.server,
                        device_name: device_of(prompt),
                    },
                ],
            ),
            _ => (RetrixModel::Prompt(prompt), Seq::empty()),
        }
    }

    /// What a message makes of the wait for a login.
    pub open spec fn awaited(message: Message) -> (RetrixModel, Seq<CommandModel>) {
        match message {
            Message::LoginFailed(error) => (
                RetrixModel::Prompt(PromptModel::empty(Some(error@))),
                Seq::empty(),
            ),
            Message::LoggedIn(session, rooms) => (
                RetrixModel::LoggedIn(MainModel::new(session@)),
                room_fetches(rooms@),
            ),
            _ => (RetrixModel::AwaitLogin, Seq::empty()),
        }
    }

    /// What one message makes of the client, and what is to be carried out.
    pub open spec fn update(self, message: Message) -> (RetrixModel, Seq<CommandModel>) {
        match self {
            RetrixModel::Prompt(prompt) => Self::prompted(prompt, message),
            RetrixModel::AwaitLogin => Self::awaited(message),
            RetrixModel::LoggedIn(view) => {
                let (next, commands) = view.update(message);
                (RetrixModel::LoggedIn(next), commands)
            },
        }
    }
}

/// Once logged in, the client stays logged in whatever it is told.
pub proof fn law_logged_in_is_terminal(client: RetrixModel, message: Message)
    requires
        client is LoggedIn,
    ensures
        client.update(message).0 is LoggedIn,
{
}

/// The prompt leaves for the wait on a login or a registration and on
/// nothing else, and the wait leaves on an answer and on nothing else.
pub proof fn law_login_takes_one_attempt(client: RetrixModel, message: Message)
    ensures
        client is Prompt ==> (client.update(message).0 is AwaitLogin <==> message is Login
            || message is Signup),
        client is Prompt ==> !(client.update(message).0 is LoggedIn),
        client is AwaitLogin ==> (client.update(message).0 is LoggedIn <==> message is LoggedIn),
        client is AwaitLogin ==> (client.update(message).0 is Prompt <==> message is LoginFailed),
{
}

/// The client: it prompts for a login, waits for it, and is logged in.
#[derive(Debug)]
pub enum Retrix {
    Prompt(PromptView),
    AwaitLogin,
    LoggedIn(MainView),
}

impl View for Retrix {
    type V = RetrixModel;

    open spec fn view(&self) -> RetrixModel {
        match self {
            Retrix::Prompt(prompt) => RetrixModel::Prompt(prompt@),
            Retrix::AwaitLogin => RetrixModel::AwaitLogin,
            Retrix::LoggedIn(view) => RetrixModel::LoggedIn(view@),
        }
    }
}

/// The commands that fetch what is shown of the rooms that the user has joined.
fn fetch_rooms(rooms: &Vec<RoomId>) -> (commands: Vec<Command>)
    ensures
        actions(commands@) == room_fetches(rooms@),
{
    let mut commands: Vec<Command> = Vec::new();
    let mut at: usize = 0;
    assert(rooms@.take(0) =~= Seq::<RoomId>::empty());
    assert(actions(commands@) =~= Seq::empty());
    while at < rooms.len()
        invariant
            at <= rooms@.len(),
            actions(commands@) == room_fetches(rooms@.take(at as int)),
        decreases rooms@.len() - at,
    {
        let ghost before = actions(commands@);
        let room = rooms[at];
        commands.push(Command::FetchRoom { room, event: None });
        commands.push(Command::FetchThumbnail(room));
        proof {
            let upto = rooms@.take(at + 1);
            assert(upto.drop_last() =~= rooms@.take(at as int));
            assert(upto.last() == room);
            assert(actions(commands@) =~= before.push(
                CommandModel::FetchRoom { room, event: None },
            ).push(CommandModel::FetchThumbnail(room)));
        }
        at += 1;
    }
    assert(rooms@.take(rooms@.len() as int) =~= rooms@);
    commands
}

/// The credentials of a prompt as a command asks for them.
fn device_name(prompt: &PromptView) -> (device: Option<String>)
    ensures
        crate::event::text_of(device) == device_of(prompt@),
{
    if prompt.device_name.as_str().is_empty() {
        None
    } else {
        Some(prompt.device_name.clone())
    }
}

impl Retrix {
    /// The client is valid when the state after login is.
    pub open spec fn wf(&self) -> bool {
        self@.wf()
    }

    /// The client as it starts: with a saved session it waits for the
    /// login that takes the session up, without one it prompts.
    pub fn new(saved: Option<Session>) -> (start: (Self, Vec<Command>))
        ensures
            start.0.wf(),
            (start.0@, actions(start.1@)) == RetrixModel::new(saved),
    {
        match saved {
            Some(session) => {
                let commands = vec![Command::RestoreLogin(session)];
                assert(actions(commands@) =~= seq![CommandModel::RestoreLogin(session@)]);
                (Retrix::AwaitLogin, commands)
            },
            None => {
                let commands = Vec::new();
                assert(actions(commands@) =~= Seq::empty());
                (Retrix::Prompt(PromptView::new()), commands)
            },
        }
    }

    /// The title of the client's window.
    pub fn title(&self) -> (title: String)
        ensures
            title@ == "Retrix matrix client"@,
    {
        String::from_str("Retrix matrix client")
    }

    /// Whether the live stream of events is to be listened to: it is once
    /// the user is logged in.
    pub fn subscription(&self) -> (listening: bool)
        ensures
            listening == (self@ is LoggedIn),
    {
        match self {
            Retrix::LoggedIn(_) => true,
            _ => false,
        }
    }

    /// What a message makes of the prompt.
    fn prompted(prompt: PromptView, message: Message) -> (next: (Self, Vec<Command>))
        ensures
            next.0.wf(),
            (next.0@, actions(next.1@)) == RetrixModel::prompted(prompt@, message),
    {
        let mut prompt = prompt;
        let mut commands: Vec<Command> = Vec::new();
        assert(actions(commands@) =~= Seq::empty());
        match message {
            Message::SetUser(user) => {
                prompt.user = user;
            },
            Message::SetPassword(password) => {
                prompt.password = password;
            },
            Message::SetServer(server) => {
                prompt.server = server;
            },
            Message::SetDeviceName(name) => {
                prompt.device_name = name;
            },
            Message::SetAction(action) => {
                prompt.action = action;
            },
            Message::Login => {
                let device_name = device_name(&prompt);
                let PromptView { user, password, server, .. } = prompt;
                commands.push(Command::Login { user, password, server, device_name });
                assert(actions(commands@) =~= RetrixModel::prompted(prompt@, message).1);
                return (Retrix::AwaitLogin, commands);
            },
            Message::Signup => {
                let device_name = device_name(&prompt);
                let PromptView { user, password, server, .. } = prompt;
                commands.push(Command::Signup { user, password, server, device_name });
                assert(actions(commands@) =~= RetrixModel::prompted(prompt@, message).1);
                return (Retrix::AwaitLogin, commands);
            },
            _ => {},
        }
        (Retrix::Prompt(prompt), commands)
    }

    /// What a message makes of the wait for a login.
    fn awaited(message: Message) -> (next: (Self, Vec<Command>))
        ensures
            next.0.wf(),
            (next.0@, actions(next.1@)) == RetrixModel::awaited(message),
    {
        match message {
            Message::LoginFailed(error) => {
                let commands = Vec::new();
                assert(actions(commands@) =~= Seq::empty());
                (Retrix::Prompt(PromptView::with_error(Some(error))), commands)
            },
            Message::LoggedIn(session, rooms) => {
                let commands = fetch_rooms(&rooms);
                (Retrix::LoggedIn(MainView::new(session)), commands)
            },
            _ => {
                let commands = Vec::new();
                assert(actions(commands@) =~= Seq::empty());
                (Retrix::AwaitLogin, commands)
            },
        }
    }

    /// Takes a message: changes the client as the message asks and returns
    /// the commands that the caller is to carry out.
    pub fn update(&mut self, message: Message) -> (commands: Vec<Command>)
        requires
            old(self).wf(),
            message.wf(),
        ensures
            final(self).wf(),
            (final(self)@, actions(commands@)) == old(self)@.update(message),
    {
        let mut state = Retrix::AwaitLogin;
        core::mem::swap(self, &mut state);
        let (next, commands) = match state {
            Retrix::Prompt(prompt) => Self::prompted(prompt, message),
            Retrix::AwaitLogin => Self::awaited(message),
            Retrix::LoggedIn(view) => {
                let mut view = view;
                let commands = view.update(message);
                (Retrix::LoggedIn(view), commands)
            },
        };
        *self = next;
        commands
    }
}

} // verus!
