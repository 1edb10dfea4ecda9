use qq_lite::store::{
    conversation_from_row, conversation_row, conversations_from_rows, direction_to_str, kind_to_str, message_from_row,
    message_row, messages_from_rows, parse_direction, parse_kind, store_write_for, ConversationRow, StoreWrite,
};
use qq_lite::{ConnectionState, DomainEvent};
use qq_lite::{
    Conversation, ConversationId, ConversationKind, LocalMessageId, Message, MessageDirection, RemoteMessageId,
    RichNode, SendState, UserId,
};

fn message(local: &str, at: i64) -> Message {
    Message {
        local_id: LocalMessageId::from(local),
        remote_id: Some(RemoteMessageId::from("r1")),
        conversation_id: ConversationId::from("group:1"),
        sender_id: UserId::from("u"),
        sender_name: Some("Ann".to_owned()),
        direction: MessageDirection::Outgoing,
        sent_at_ms: at,
        nodes: vec![RichNode::Text { text: "t".to_owned() }],
        raw_json: Some(serde_json::Value::Bool(true)),
        send_state: SendState::Failed { reason: "r".to_owned() },
    }
}

#[test]
fn kinds_and_directions_read_back() {
    assert_eq!(kind_to_str(&ConversationKind::Group), "group");
    assert_eq!(kind_to_str(&ConversationKind::Private), "private");
    assert_eq!(parse_kind("group"), ConversationKind::Group);
    assert_eq!(parse_kind("private"), ConversationKind::Private);
    assert_eq!(parse_kind("Group"), ConversationKind::Private);
    assert_eq!(direction_to_str(&MessageDirection::Incoming), "Incoming");
    assert_eq!(direction_to_str(&MessageDirection::Outgoing), format!("{:?}", MessageDirection::Outgoing));
    assert_eq!(parse_direction("Outgoing"), MessageDirection::Outgoing);
    assert_eq!(parse_direction("outgoing"), MessageDirection::Incoming);
    for kind in [ConversationKind::Group, ConversationKind::Private] {
        assert_eq!(parse_kind(kind_to_str(&kind)), kind);
    }
    for d in [MessageDirection::Incoming, MessageDirection::Outgoing] {
        assert_eq!(parse_direction(direction_to_str(&d)), d);
    }
}

#[test]
fn a_stored_conversation_reads_back() {
    let mut c = Conversation::new(ConversationId::from("group:1"), ConversationKind::Group, "G".to_owned(), 99);
    c.last_message_preview = Some("p".to_owned());
    c.unread_count = u32::MAX;
    let row = conversation_row(&c);
    assert_eq!(row.kind, "group");
    assert_eq!(row.unread_count, 4_294_967_295);
    let back = conversation_from_row(row);
    assert_eq!(back.id, c.id);
    assert_eq!(back.kind, c.kind);
    assert_eq!(back.title, c.title);
    assert_eq!(back.last_message_preview, c.last_message_preview);
    assert_eq!(back.updated_at_ms, c.updated_at_ms);
    assert_eq!(back.unread_count, c.unread_count);
}

#[test]
fn unread_counts_keep_their_low_bits() {
    let row = ConversationRow {
        id: "x".to_owned(),
        kind: "weird".to_owned(),
        title: "t".to_owned(),
        last_message_preview: None,
        updated_at_ms: 1,
        unread_count: 4_294_967_296 + 7,
    };
    let c = conversation_from_row(row);
    assert_eq!(c.unread_count, 7);
    assert_eq!(c.kind, ConversationKind::Private);
}

#[test]
fn a_stored_message_reads_back() {
    let m = message("m1", 5);
    let row = message_row(m.clone());
    assert_eq!(row.direction, "Outgoing");
    assert_eq!(row.remote_id.as_deref(), Some("r1"));
    let back = message_from_row(row);
    assert_eq!(back.local_id, m.local_id);
    assert_eq!(back.remote_id, m.remote_id);
    assert_eq!(back.conversation_id, m.conversation_id);
    assert_eq!(back.sender_id, m.sender_id);
    assert_eq!(back.sender_name, m.sender_name);
    assert_eq!(back.direction, m.direction);
    assert_eq!(back.sent_at_ms, m.sent_at_ms);
    assert_eq!(back.nodes, m.nodes);
    assert_eq!(back.raw_json, m.raw_json);
    assert_eq!(back.send_state, m.send_state);
}

#[test]
fn rows_come_back_in_timeline_and_list_order() {
    let rows = vec![message_row(message("newest", 3)), message_row(message("middle", 2)), message_row(message("oldest", 1))];
    let ids: Vec<_> = messages_from_rows(rows).iter().map(|m| m.local_id.as_str().to_owned()).collect();
    assert_eq!(ids, vec!["oldest", "middle", "newest"]);
    let conversations = vec![
        conversation_row(&Conversation::new(ConversationId::from("a"), ConversationKind::Group, "A".to_owned(), 2)),
        conversation_row(&Conversation::new(ConversationId::from("b"), ConversationKind::Private, "B".to_owned(), 1)),
    ];
    let ids: Vec<_> = conversations_from_rows(conversations).iter().map(|c| c.id.as_str().to_owned()).collect();
    assert_eq!(ids, vec!["a", "b"]);
    assert!(messages_from_rows(Vec::new()).is_empty());
}

#[test]
fn reported_events_choose_their_store_write() {
    let c = qq_lite::Conversation::new(
        qq_lite::ConversationId::from("group:1"),
        qq_lite::ConversationKind::Group,
        "g".to_owned(),
        1,
    );
    assert_eq!(store_write_for(&DomainEvent::ConversationUpdated(c)), StoreWrite::UpsertConversation);
    let m = qq_lite::Message::outgoing_text(
        qq_lite::ConversationId::from("group:1"),
        qq_lite::UserId::from("me"),
        "t".to_owned(),
        1,
        9,
    );
    assert_eq!(store_write_for(&DomainEvent::MessageReceived(m)), StoreWrite::InsertMessage);
    assert_eq!(store_write_for(&DomainEvent::ConnectionChanged(ConnectionState::Connected)), StoreWrite::Nothing);
}
