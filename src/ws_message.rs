//! The chat commands a client sends.
use vstd::prelude::*;

verus! {

#[derive(Clone, Debug)]
pub struct NickMessage {
    pub nick: String,
}

#[derive(Clone, Debug)]
pub struct PrivateMessage {
    pub receiver: String,
    pub message: String,
}

#[derive(Clone, Debug)]
pub struct ChatMessage {
    pub message: String,
}

#[derive(Clone, Debug)]
pub struct HelpMessage {}

#[derive(Clone, Debug)]
pub struct QuitMessage {}

#[derive(Clone, Debug)]
pub enum MessageType {
    Nick(NickMessage),
    Private(PrivateMessage),
    Chat(ChatMessage),
    Help(HelpMessage),
    Quit(QuitMessage),
}

/// A command with its texts as characters.
pub ghost enum CommandView {
    Nick(Seq<char>),
    Private(Seq<char>, Seq<char>),
    Chat(Seq<char>),
    Help,
    Quit,
}

impl View for MessageType {
    type V = CommandView;

    open spec fn view(&self) -> CommandView {
        match self {
            MessageType::Nick(m) => CommandView::Nick(m.nick@),
            MessageType::Private(m) => CommandView::Private(m.receiver@, m.message@),
            MessageType::Chat(m) => CommandView::Chat(m.message@),
            MessageType::Help(_) => CommandView::Help,
            MessageType::Quit(_) => CommandView::Quit,
        }
    }
}

} // verus!
