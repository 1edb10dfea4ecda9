use qq_lite::service::{command_debug_text, handle_local_command};
use qq_lite::{
    ClientCommand, ConnectionConfig, Conversation, ConversationId, ConversationKind, ConversationView, CoreError,
    LocalMessageId, Message, MessageDirection, MessageView, RemoteMessageId, RichNode, SendState, UserId,
};

fn is_local_id(s: &str, counter: u64) -> bool {
    let Some(rest) = s.strip_prefix("local-") else { return false };
    let Some(uuid) = rest.strip_suffix(&format!("-{counter}")) else { return false };
    let chars: Vec<char> = uuid.chars().collect();
    chars.len() == 36
        && chars.iter().enumerate().all(|(i, c)| {
            if [8, 13, 18, 23].contains(&i) {
                *c == '-'
            } else {
                c.is_ascii_digit() || ('a'..='f').contains(c)
            }
        })
        && chars[14] == '4'
        && "89ab".contains(chars[19])
}

#[test]
fn ids_keep_their_text() {
    let id = ConversationId::new("group:42".to_owned());
    assert_eq!(id.as_str(), "group:42");
    assert_eq!(id, ConversationId::from("group:42"));
    assert_eq!(id, ConversationId::from("group:42".to_owned()));
    assert_ne!(id, ConversationId::from("group:43"));
    assert_eq!(id.clone(), id);
    assert_eq!(UserId::new("1".to_owned()).into_string(), "1");
    assert_eq!(RemoteMessageId::from("9").as_str(), "9");
}

#[test]
fn generated_local_ids_are_fresh() {
    let a = LocalMessageId::generated(1);
    let b = LocalMessageId::generated(2);
    assert!(is_local_id(a.as_str(), 1), "{}", a.as_str());
    assert!(is_local_id(b.as_str(), 2), "{}", b.as_str());
    assert!(a.as_str().ends_with("-1"));
    assert!(b.as_str().ends_with("-2"));
    assert_eq!(a.as_str().len(), 44);
    assert_ne!(a, b);
    let big = LocalMessageId::generated(18_446_744_073_709_551_615);
    assert!(big.as_str().ends_with("-18446744073709551615"));
    assert!(is_local_id(big.as_str(), u64::MAX));
    let zero = LocalMessageId::generated(0);
    assert!(is_local_id(zero.as_str(), 0));
}

#[test]
fn local_ids_are_made_of_their_parts() {
    let id = LocalMessageId::from_parts("123e4567-e89b-42d3-a456-426614174000", 17);
    assert_eq!(id.as_str(), "local-123e4567-e89b-42d3-a456-426614174000-17");
    assert_eq!(LocalMessageId::from_parts("", 0).as_str(), "local--0");
}

#[test]
fn default_config_points_at_local_napcat() {
    let config = ConnectionConfig::default();
    assert_eq!(config.endpoint, "ws://127.0.0.1:3001");
    assert_eq!(config.access_token, None);
    assert!(config.reconnect);
}

#[test]
fn new_conversation_has_nothing_unread() {
    let c = Conversation::new(ConversationId::from("private:5"), ConversationKind::Private, "User 5".to_owned(), 1000);
    assert_eq!(c.id.as_str(), "private:5");
    assert_eq!(c.kind, ConversationKind::Private);
    assert_eq!(c.title, "User 5");
    assert_eq!(c.last_message_preview, None);
    assert_eq!(c.updated_at_ms, 1000);
    assert_eq!(c.unread_count, 0);
    let view = ConversationView::from(c);
    assert_eq!(view.title, "User 5");
    assert_eq!(view.updated_at_ms, 1000);
}

#[test]
fn outgoing_text_is_pending() {
    let m = Message::outgoing_text(ConversationId::from("group:1"), UserId::from("me"), "hi".to_owned(), 77, 5);
    assert!(is_local_id(m.local_id.as_str(), 5));
    assert_eq!(m.remote_id, None);
    assert_eq!(m.direction, MessageDirection::Outgoing);
    assert_eq!(m.sent_at_ms, 77);
    assert_eq!(m.nodes, vec![RichNode::Text { text: "hi".to_owned() }]);
    assert!(m.raw_json.is_none());
    assert_eq!(m.send_state, SendState::Pending);
    let view = MessageView::from(m.clone());
    assert_eq!(view.local_id, m.local_id);
    assert_eq!(view.send_state, SendState::Pending);
}

#[test]
fn error_messages() {
    assert_eq!(CoreError::CommandChannelClosed.message(), "core command channel is closed");
    assert_eq!(CoreError::EventChannelClosed.message(), "core event channel is closed");
    assert_eq!(CoreError::InvalidCommand("x".to_owned()).message(), "invalid command: x");
    assert_eq!(CoreError::Gateway("down".to_owned()).message(), "gateway error: down");
    assert_eq!(CoreError::Store("full".to_owned()).message(), "store error: full");
}

#[test]
fn loading_is_handled_locally() {
    assert!(handle_local_command(ClientCommand::LoadConversations).is_ok());
    let load = ClientCommand::LoadMessages { conversation_id: ConversationId::from("group:1"), limit: 20 };
    assert!(handle_local_command(load).is_ok());
}

#[test]
fn other_commands_belong_to_an_adapter() {
    let commands = vec![
        ClientCommand::Disconnect,
        ClientCommand::Connect(ConnectionConfig {
            endpoint: "ws://h:1/\"q\"".to_owned(),
            access_token: Some("t\\k\n".to_owned()),
            reconnect: false,
        }),
        ClientCommand::Connect(ConnectionConfig::default()),
        ClientCommand::SendTextMessage { conversation_id: ConversationId::from("private:2"), text: "héllo\t".to_owned() },
    ];
    for command in commands {
        let expected = format!("{command:?} must be handled by an adapter");
        match handle_local_command(command) {
            Err(CoreError::InvalidCommand(detail)) => assert_eq!(detail, expected),
            other => panic!("unexpected {other:?}"),
        }
    }
    match handle_local_command(ClientCommand::Disconnect) {
        Err(CoreError::InvalidCommand(detail)) => assert_eq!(detail, "Disconnect must be handled by an adapter"),
        other => panic!("unexpected {other:?}"),
    }
}

#[test]
fn command_debug_text_matches_derived_debug() {
    let load = ClientCommand::LoadMessages { conversation_id: ConversationId::from("a\"b"), limit: 18446744073 };
    assert_eq!(command_debug_text(&load), format!("{load:?}"));
    assert_eq!(command_debug_text(&ClientCommand::LoadConversations), "LoadConversations");
}
