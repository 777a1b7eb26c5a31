use websocket_chat::client_registry::ClientRegistry;
use websocket_chat::ws_message::{
    ChatMessage, HelpMessage, MessageType, NickMessage, PrivateMessage, QuitMessage,
};
use websocket_chat::ws_session::{ChatAction, ChatSession, USAGE_MSG};

fn nick(n: &str) -> Option<MessageType> {
    Some(MessageType::Nick(NickMessage { nick: n.to_string() }))
}

fn chat(m: &str) -> Option<MessageType> {
    Some(MessageType::Chat(ChatMessage { message: m.to_string() }))
}

fn private(to: &str, m: &str) -> Option<MessageType> {
    Some(MessageType::Private(PrivateMessage { receiver: to.to_string(), message: m.to_string() }))
}

fn quit() -> Option<MessageType> {
    Some(MessageType::Quit(QuitMessage {}))
}

fn reply_text(a: &ChatAction) -> String {
    match a {
        ChatAction::Reply(t) => t.clone(),
        _ => panic!("expected a reply"),
    }
}

#[test]
fn chat_broadcast_private_and_quit() {
    let mut registry: ClientRegistry<u32> = ClientRegistry::new();
    let mut a = ChatSession::new();
    let mut b = ChatSession::new();
    let ra = a.handle_command(&mut registry, 1, nick("alice"));
    assert_eq!(reply_text(&ra), "Hello alice, now you can send messages");
    let rb = b.handle_command(&mut registry, 2, nick("bob"));
    assert_eq!(reply_text(&rb), "Hello bob, now you can send messages");

    match a.handle_command(&mut registry, 1, chat("hi")) {
        ChatAction::Broadcast(m) => assert_eq!(m, "hi"),
        _ => panic!("expected a broadcast"),
    }
    let targets = a.broadcast_targets(&registry);
    assert_eq!(targets, vec!["bob".to_string()]);
    assert_eq!(registry.get("bob"), Some(&2));

    match b.handle_command(&mut registry, 2, private("alice", "psst")) {
        ChatAction::SendPrivate { receiver, message } => {
            assert_eq!(receiver, "alice");
            assert_eq!(message, "psst");
            assert_eq!(registry.get(&receiver), Some(&1));
        }
        _ => panic!("expected a private message"),
    }

    let rq = a.handle_command(&mut registry, 1, quit());
    assert_eq!(reply_text(&rq), "You left the chat.");
    assert!(!registry.contains("alice"));
    assert!(a.nickname().is_none());
    assert!(b.broadcast_targets(&registry).is_empty());
}

#[test]
fn broadcast_never_targets_sender() {
    let mut registry: ClientRegistry<u32> = ClientRegistry::new();
    let mut sessions = Vec::new();
    for (i, n) in ["a", "b", "c"].iter().enumerate() {
        let mut s = ChatSession::new();
        s.handle_command(&mut registry, i as u32, nick(n));
        sessions.push(s);
    }
    let mut targets = sessions[1].broadcast_targets(&registry);
    targets.sort();
    assert_eq!(targets, vec!["a".to_string(), "c".to_string()]);
}

#[test]
fn close_removes_nickname() {
    let mut registry: ClientRegistry<u32> = ClientRegistry::new();
    let mut a = ChatSession::new();
    a.handle_command(&mut registry, 7, nick("alice"));
    assert!(registry.contains("alice"));
    a.close(&mut registry);
    assert!(!registry.contains("alice"));
    assert!(a.nickname().is_none());
}

#[test]
fn chat_without_nickname_asks_for_one() {
    let mut registry: ClientRegistry<u32> = ClientRegistry::new();
    let mut a = ChatSession::new();
    let r = a.handle_command(&mut registry, 1, chat("hi"));
    assert_eq!(reply_text(&r), "Please enter your nickname: /nick <your_nickname>");
    assert!(a.broadcast_targets(&registry).is_empty());
}

#[test]
fn second_nick_is_ignored() {
    let mut registry: ClientRegistry<u32> = ClientRegistry::new();
    let mut a = ChatSession::new();
    a.handle_command(&mut registry, 1, nick("alice"));
    assert!(matches!(a.handle_command(&mut registry, 1, nick("alicia")), ChatAction::Nothing));
    assert_eq!(a.nickname().map(|n| n.as_str()), Some("alice"));
    assert!(!registry.contains("alicia"));
}

#[test]
fn private_to_absent_client() {
    let mut registry: ClientRegistry<u32> = ClientRegistry::new();
    let mut a = ChatSession::new();
    let r = a.handle_command(&mut registry, 1, private("carol", "x"));
    assert_eq!(reply_text(&r), "Client with nickname: carol is not connected to chat");
}

#[test]
fn quit_without_nickname() {
    let mut registry: ClientRegistry<u32> = ClientRegistry::new();
    let mut a = ChatSession::new();
    let r = a.handle_command(&mut registry, 1, quit());
    assert_eq!(reply_text(&r), "Leave impossible, you are not in the chat");
}

#[test]
fn help_and_unknown_commands() {
    let mut registry: ClientRegistry<u32> = ClientRegistry::new();
    let mut a = ChatSession::new();
    let r = a.handle_command(&mut registry, 1, Some(MessageType::Help(HelpMessage {})));
    assert_eq!(reply_text(&r), USAGE_MSG);
    let r = a.handle_command(&mut registry, 1, None);
    assert_eq!(reply_text(&r), "Command not supported.");
}

#[test]
fn nick_again_after_quit() {
    let mut registry: ClientRegistry<u32> = ClientRegistry::new();
    let mut a = ChatSession::new();
    a.handle_command(&mut registry, 1, nick("alice"));
    a.handle_command(&mut registry, 1, quit());
    a.handle_command(&mut registry, 1, nick("ally"));
    assert!(registry.contains("ally"));
    assert!(!registry.contains("alice"));
}

#[test]
fn registry_insert_replaces_and_remove_returns_writer() {
    let mut registry: ClientRegistry<u32> = ClientRegistry::new();
    registry.insert("x".to_string(), 1);
    registry.insert("x".to_string(), 2);
    assert_eq!(registry.get("x"), Some(&2));
    assert_eq!(registry.recipients("nobody"), vec!["x".to_string()]);
    assert_eq!(registry.remove("x"), Some(2));
    assert_eq!(registry.remove("x"), None);
    assert!(registry.recipients("nobody").is_empty());
}
