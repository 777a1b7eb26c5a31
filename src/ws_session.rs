//! What a chat session decides on each command: its nickname, the registry, and the message to
//! send. The connection itself is driven by the caller.
use vstd::prelude::*;
use crate::client_registry::ClientRegistry;
use crate::handler::lines_view;
use crate::text::push_str;
use crate::ws_message::{CommandView, MessageType};

verus! {

pub const USAGE_MSG: &'static str = "To use chat, you need to set your nickname.
Usage:
    /nick <nickname>                - set your nickname
    /quit                           - leave chat
    /help                           - show help
    /private <nickname> <message>   - send private message";

/// What the caller sends after a command.
#[derive(Clone, Debug)]
pub enum ChatAction {
    Nothing,
    /// A text to this session's own client.
    Reply(String),
    /// A text to every other client in the chat.
    Broadcast(String),
    /// A text to one client.
    SendPrivate { receiver: String, message: String },
}

pub ghost enum ActionView {
    Nothing,
    Reply(Seq<char>),
    Broadcast(Seq<char>),
    SendPrivate(Seq<char>, Seq<char>),
}

impl View for ChatAction {
    type V = ActionView;

    open spec fn view(&self) -> ActionView {
        match self {
            ChatAction::Nothing => ActionView::Nothing,
            ChatAction::Reply(t) => ActionView::Reply(t@),
            ChatAction::Broadcast(t) => ActionView::Broadcast(t@),
            ChatAction::SendPrivate { receiver, message } => ActionView::SendPrivate(receiver@, message@),
        }
    }
}

pub open spec fn greeting(nick: Seq<char>) -> Seq<char> {
    "Hello "@ + nick + ", now you can send messages"@
}

pub open spec fn not_connected(nick: Seq<char>) -> Seq<char> {
    "Client with nickname: "@ + nick + " is not connected to chat"@
}

/// The session's nickname, the registry and the action after a command; `None` stands for a
/// text that is not a command.
pub open spec fn after_command<W>(nick: Option<Seq<char>>, reg: Map<Seq<char>, W>, writer: W, cmd: Option<CommandView>) -> (Option<Seq<char>>, Map<Seq<char>, W>, ActionView) {
    match cmd {
        None => (nick, reg, ActionView::Reply("Command not supported."@)),
        Some(CommandView::Nick(n)) => if nick is None {
            (Some(n), reg.insert(n, writer), ActionView::Reply(greeting(n)))
        } else {
            (nick, reg, ActionView::Nothing)
        },
        Some(CommandView::Chat(m)) => if nick is None {
            (nick, reg, ActionView::Reply("Please enter your nickname: /nick <your_nickname>"@))
        } else {
            (nick, reg, ActionView::Broadcast(m))
        },
        Some(CommandView::Private(to, m)) => if reg.contains_key(to) {
            (nick, reg, ActionView::SendPrivate(to, m))
        } else {
            (nick, reg, ActionView::Reply(not_connected(to)))
        },
        Some(CommandView::Help) => (nick, reg, ActionView::Reply(USAGE_MSG@)),
        Some(CommandView::Quit) => match nick {
            Some(n) => (None, reg.remove(n), ActionView::Reply("You left the chat."@)),
            None => (nick, reg, ActionView::Reply("Leave impossible, you are not in the chat"@)),
        },
    }
}

/// The registry once the session has closed: without the session's nickname.
pub open spec fn after_close<W>(nick: Option<Seq<char>>, reg: Map<Seq<char>, W>) -> Map<Seq<char>, W> {
    match nick {
        Some(n) => reg.remove(n),
        None => reg,
    }
}

/// Whom a broadcast from a session goes to: every nickname in the chat but its own; nobody
/// while it has none.
pub open spec fn broadcast_set<W>(nick: Option<Seq<char>>, reg: Map<Seq<char>, W>) -> Set<Seq<char>> {
    match nick {
        Some(n) => reg.dom().remove(n),
        None => Set::empty(),
    }
}

pub struct ChatSession {
    nickname: Option<String>,
}

impl View for ChatSession {
    type V = Option<Seq<char>>;

    closed spec fn view(&self) -> Option<Seq<char>> {
        match self.nickname {
            Some(n) => Some(n@),
            None => None,
        }
    }
}

fn text_of(s: &str) -> (r: String)
    ensures
        r@ == s@,
{
    s.to_owned()
}

impl ChatSession {
    pub fn new() -> (s: Self)
        ensures
            s@ is None,
    {
        Self { nickname: None }
    }

    pub fn nickname(&self) -> (r: Option<&String>)
        ensures
            match r {
                Some(n) => self@ == Some(n@),
                None => self@ is None,
            },
    {
        match &self.nickname {
            Some(n) => Some(n),
            None => None,
        }
    }

    /// Carries out one command; `writer` is this session's own handle, kept by the registry
    /// when the session takes a nickname.
    pub fn handle_command<W>(&mut self, registry: &mut ClientRegistry<W>, writer: W, command: Option<MessageType>) -> (r: ChatAction)
        requires
            old(registry).wf(),
        ensures
            final(registry).wf(),
            (final(self)@, final(registry)@, r@) == after_command(
                old(self)@,
                old(registry)@,
                writer,
                match command {
                    Some(c) => Some(c@),
                    None => None,
                },
            ),
    {
        let command = match command {
            Some(c) => c,
            None => {
                return ChatAction::Reply(text_of("Command not supported."));
            },
        };
        match command {
            MessageType::Nick(m) => {
                if self.nickname.is_none() {
                    let mut reply = String::new();
                    push_str(&mut reply, "Hello ");
                    push_str(&mut reply, m.nick.as_str());
                    push_str(&mut reply, ", now you can send messages");
                    registry.insert(m.nick.clone(), writer);
                    self.nickname = Some(m.nick);
                    ChatAction::Reply(reply)
                } else {
                    ChatAction::Nothing
                }
            },
            MessageType::Chat(m) => {
                if self.nickname.is_none() {
                    ChatAction::Reply(text_of("Please enter your nickname: /nick <your_nickname>"))
                } else {
                    ChatAction::Broadcast(m.message)
                }
            },
            MessageType::Private(m) => {
                if registry.contains(m.receiver.as_str()) {
                    ChatAction::SendPrivate { receiver: m.receiver, message: m.message }
                } else {
                    let mut reply = String::new();
                    push_str(&mut reply, "Client with nickname: ");
                    push_str(&mut reply, m.receiver.as_str());
                    push_str(&mut reply, " is not connected to chat");
                    ChatAction::Reply(reply)
                }
            },
            MessageType::Help(_) => ChatAction::Reply(text_of(USAGE_MSG)),
            MessageType::Quit(_) => {
                match self.nickname.take() {
                    Some(n) => {
                        let _ = registry.remove(n.as_str());
                        ChatAction::Reply(text_of("You left the chat."))
                    },
                    None => ChatAction::Reply(text_of("Leave impossible, you are not in the chat")),
                }
            },
        }
    }

    /// The session ends: its nickname leaves the registry.
    pub fn close<W>(&mut self, registry: &mut ClientRegistry<W>)
        requires
            old(registry).wf(),
        ensures
            final(registry).wf(),
            final(self)@ is None,
            final(registry)@ == after_close(old(self)@, old(registry)@),
    {
        match self.nickname.take() {
            Some(n) => {
                let _ = registry.remove(n.as_str());
            },
            None => {},
        }
    }

    /// The nicknames a broadcast from this session goes to now.
    pub fn broadcast_targets<W>(&self, registry: &ClientRegistry<W>) -> (r: Vec<String>)
        requires
            registry.wf(),
        ensures
            lines_view(r@).no_duplicates(),
            lines_view(r@).to_set() == broadcast_set(self@, registry@),
    {
        match &self.nickname {
            Some(n) => registry.recipients(n.as_str()),
            None => {
                let r: Vec<String> = Vec::new();
                assert(lines_view(r@).to_set() =~= Set::empty());
                r
            },
        }
    }
}

/// A session's broadcast never goes to its own nickname.
pub proof fn lemma_no_self_broadcast<W>(nick: Seq<char>, reg: Map<Seq<char>, W>)
    ensures
        !broadcast_set(Some(nick), reg).contains(nick),
{
}

/// After a session quits, or closes, its nickname is no longer in the registry; quitting
/// without a nickname leaves the registry as it was.
pub proof fn lemma_quit_and_close_leave_registry<W>(nick: Option<Seq<char>>, reg: Map<Seq<char>, W>, writer: W)
    ensures
        nick matches Some(n) ==> !after_command(nick, reg, writer, Some(CommandView::Quit)).1.contains_key(n),
        after_command(nick, reg, writer, Some(CommandView::Quit)).0 is None,
        nick is None ==> after_command(nick, reg, writer, Some(CommandView::Quit)).1 == reg,
        nick matches Some(n) ==> !after_close(nick, reg).contains_key(n),
{
}

} // verus!
