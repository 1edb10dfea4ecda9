use qq_lite::napcat::gateway::{
    action_failed, bearer_authorization, connection_ended, event_time_fits, events_from_frame, invalid_token_error,
    GatewayAction, GatewayState,
};
use qq_lite::napcat::mapper::{
    carries_message, conversation_event_from_message, message_event_from_message, message_event_with_local_id,
};
use qq_lite::napcat::{
    events_from_message, text_message_action, ActionTarget, DataField, DataValue, EventEnvelope, MessageSegment,
};
use qq_lite::{
    ClientCommand, ConnectionConfig, ConnectionState, ConversationId, ConversationKind, CoreError, DomainEvent,
    LocalMessageId, MessageDirection, RichNode, SendState,
};

fn envelope() -> EventEnvelope {
    EventEnvelope {
        post_type: Some("message".to_owned()),
        message_type: Some("group".to_owned()),
        sub_type: Some("normal".to_owned()),
        time: Some(1_700_000_000),
        self_id: Some(1),
        user_id: Some(42),
        group_id: Some(9001),
        message_id: Some(-5),
        message: None,
        raw_message: Some("raw text".to_owned()),
        raw_json: Some(serde_json::Value::String("raw".to_owned())),
    }
}

fn segment(kind: &str, data: Vec<(&str, DataValue)>) -> MessageSegment {
    MessageSegment {
        kind: kind.to_owned(),
        data: data.into_iter().map(|(k, v)| DataField { key: k.to_owned(), value: v }).collect(),
    }
}

fn is_uuid(s: &str) -> bool {
    s.len() == 36 && s.chars().nth(14) == Some('4') && s.chars().filter(|c| *c == '-').count() == 4
}

#[test]
fn a_group_message_updates_its_group_and_carries_the_message() {
    let events = events_from_message(envelope(), 3);
    assert_eq!(events.len(), 2);
    match &events[0] {
        DomainEvent::ConversationUpdated(c) => {
            assert_eq!(c.id.as_str(), "group:9001");
            assert_eq!(c.kind, ConversationKind::Group);
            assert_eq!(c.title, "Group 9001");
            assert_eq!(c.updated_at_ms, 1_700_000_000_000);
            assert_eq!(c.unread_count, 0);
            assert_eq!(c.last_message_preview, None);
        },
        other => panic!("unexpected {other:?}"),
    }
    match &events[1] {
        DomainEvent::MessageReceived(m) => {
            assert!(m.local_id.as_str().starts_with("local-"));
            assert!(m.local_id.as_str().ends_with("-3"));
            assert_eq!(m.local_id.as_str().len(), 44);
            assert_eq!(m.remote_id.as_ref().map(|r| r.as_str()), Some("-5"));
            assert_eq!(m.conversation_id.as_str(), "group:9001");
            assert_eq!(m.sender_id.as_str(), "42");
            assert_eq!(m.direction, MessageDirection::Incoming);
            assert_eq!(m.sent_at_ms, 1_700_000_000_000);
            assert_eq!(m.nodes, vec![RichNode::Text { text: "raw text".to_owned() }]);
            assert_eq!(m.raw_json, Some(serde_json::Value::String("raw".to_owned())));
            assert_eq!(m.send_state, SendState::Received);
        },
        other => panic!("unexpected {other:?}"),
    }
}

#[test]
fn a_private_message_names_its_sender() {
    let mut e = envelope();
    e.message_type = Some("private".to_owned());
    e.group_id = None;
    e.user_id = Some(-7);
    e.time = None;
    e.raw_message = None;
    match conversation_event_from_message(&e) {
        Some(DomainEvent::ConversationUpdated(c)) => {
            assert_eq!(c.id.as_str(), "private:-7");
            assert_eq!(c.title, "User -7");
            assert_eq!(c.kind, ConversationKind::Private);
            assert_eq!(c.updated_at_ms, 0);
        },
        other => panic!("unexpected {other:?}"),
    }
    match message_event_with_local_id(e, LocalMessageId::from("mine")) {
        Some(DomainEvent::MessageReceived(m)) => {
            assert_eq!(m.local_id.as_str(), "mine");
            assert_eq!(m.nodes, vec![RichNode::Text { text: String::new() }]);
        },
        other => panic!("unexpected {other:?}"),
    }
}

#[test]
fn other_events_yield_nothing() {
    let mut not_message = envelope();
    not_message.post_type = Some("notice".to_owned());
    assert!(events_from_message(not_message, 1).is_empty());
    let mut no_sender = envelope();
    no_sender.user_id = None;
    assert!(events_from_message(no_sender, 1).is_empty());
    let mut no_type = envelope();
    no_type.message_type = None;
    assert!(conversation_event_from_message(&no_type).is_none());
    let mut group_without_id = envelope();
    group_without_id.group_id = None;
    assert!(events_from_message(group_without_id, 1).is_empty());
    let mut unknown_type = envelope();
    unknown_type.message_type = Some("guild".to_owned());
    assert!(message_event_from_message(unknown_type, 1).is_none());
    let mut no_post = envelope();
    no_post.post_type = None;
    assert!(events_from_message(no_post, 1).is_empty());
}

#[test]
fn segments_become_nodes() {
    let mut e = envelope();
    e.message = Some(vec![
        segment("text", vec![("text", DataValue::Text("hello".to_owned()))]),
        segment("text", vec![("text", DataValue::Json("12".to_owned()))]),
        segment("text", vec![("other", DataValue::Text("x".to_owned()))]),
        segment("image", vec![("file", DataValue::Text("a.png".to_owned()))]),
    ]);
    match message_event_from_message(e, 12) {
        Some(DomainEvent::MessageReceived(m)) => assert_eq!(
            m.nodes,
            vec![
                RichNode::Text { text: "hello".to_owned() },
                RichNode::Text { text: "12".to_owned() },
                RichNode::Text { text: String::new() },
                RichNode::Unsupported { kind: "image".to_owned(), summary: "[image]".to_owned() },
            ]
        ),
        other => panic!("unexpected {other:?}"),
    }
}

#[test]
fn replies_go_to_the_group_or_the_user() {
    let group = text_message_action(&ConversationId::from("group:9001"), "hi");
    assert_eq!(group.action, "send_group_msg");
    assert_eq!(group.params.target_key, "group_id");
    assert!(matches!(group.params.target, ActionTarget::Id(9001)));
    assert_eq!(group.params.text, "hi");
    assert!(is_uuid(&group.echo));

    let private = text_message_action(&ConversationId::from("private:-7"), "yo");
    assert_eq!(private.action, "send_private_msg");
    assert_eq!(private.params.target_key, "user_id");
    assert!(matches!(private.params.target, ActionTarget::Id(-7)));

    let plain = text_message_action(&ConversationId::from("alice"), "");
    assert_eq!(plain.action, "send_msg");
    assert_eq!(plain.params.target_key, "user_id");
    assert!(matches!(&plain.params.target, ActionTarget::Name(n) if n == "alice"));

    let odd = text_message_action(&ConversationId::from("group:+12"), "x");
    assert!(matches!(odd.params.target, ActionTarget::Id(12)));
    let big = text_message_action(&ConversationId::from("group:9223372036854775808"), "x");
    assert!(matches!(&big.params.target, ActionTarget::Name(n) if n == "9223372036854775808"));
    let spaced = text_message_action(&ConversationId::from("private: 3"), "x");
    assert!(matches!(&spaced.params.target, ActionTarget::Name(n) if n == " 3"));
    assert_ne!(group.echo, private.echo);
}

#[test]
fn a_reply_to_a_received_message_routes_back() {
    for e in [envelope(), {
        let mut p = envelope();
        p.message_type = Some("private".to_owned());
        p
    }] {
        let events = events_from_message(e, 1);
        let DomainEvent::ConversationUpdated(c) = &events[0] else { panic!() };
        let request = text_message_action(&c.id, "back");
        match c.kind {
            ConversationKind::Group => assert!(matches!(request.params.target, ActionTarget::Id(9001))),
            ConversationKind::Private => assert!(matches!(request.params.target, ActionTarget::Id(42))),
        }
    }
}

#[test]
fn gateway_connects_sends_and_disconnects() {
    let mut gateway = GatewayState::new();
    let config = ConnectionConfig::default();

    let send = || ClientCommand::SendTextMessage { conversation_id: ConversationId::from("group:1"), text: "t".to_owned() };
    let actions = gateway.handle(send());
    assert_eq!(actions.len(), 1);
    assert!(matches!(&actions[0], GatewayAction::Publish(DomainEvent::ConnectionChanged(ConnectionState::Failed { reason })) if reason == "not connected to NapCat"));

    let actions = gateway.handle(ClientCommand::Connect(config.clone()));
    assert!(matches!(actions.as_slice(), [
        GatewayAction::Publish(DomainEvent::ConnectionChanged(ConnectionState::Connecting)),
        GatewayAction::StartConnection(_)
    ]));
    assert!(gateway.connection_running());

    let actions = gateway.handle(ClientCommand::Connect(config.clone()));
    assert_eq!(actions.len(), 3);
    assert!(matches!(actions[0], GatewayAction::AbortConnection));

    let actions = gateway.handle(send());
    match &actions[..] {
        [GatewayAction::SendAction(c, request)] => {
            assert_eq!(c.endpoint, config.endpoint);
            assert_eq!(request.action, "send_group_msg");
        },
        other => panic!("unexpected {other:?}"),
    }

    assert!(gateway.handle(ClientCommand::LoadConversations).is_empty());

    let actions = gateway.handle(ClientCommand::Disconnect);
    assert!(matches!(actions.as_slice(), [
        GatewayAction::AbortConnection,
        GatewayAction::Publish(DomainEvent::ConnectionChanged(ConnectionState::Disconnected))
    ]));
    assert!(gateway.active_config().is_none());
    assert!(!gateway.connection_running());
    assert_eq!(gateway.handle(ClientCommand::Disconnect).len(), 1);
}

#[test]
fn connection_end_announcements() {
    let (events, again) = connection_ended(&Ok(()), true);
    assert!(again);
    assert!(matches!(events.as_slice(), [
        DomainEvent::ConnectionChanged(ConnectionState::Disconnected),
        DomainEvent::ConnectionChanged(ConnectionState::Reconnecting)
    ]));
    let (events, again) = connection_ended(&Err(CoreError::Gateway("refused".to_owned())), false);
    assert!(!again);
    assert!(matches!(events.as_slice(), [DomainEvent::ConnectionChanged(ConnectionState::Failed { reason })] if reason == "gateway error: refused"));
    assert!(matches!(action_failed(&CoreError::CommandChannelClosed), DomainEvent::ConnectionChanged(ConnectionState::Failed { reason }) if reason == "core command channel is closed"));
}

#[test]
fn frames_yield_events_or_a_decoding_failure() {
    assert_eq!(events_from_frame(Ok(envelope()), 7).len(), 2);
    let events = events_from_frame(Err("expected value at line 1".to_owned()), 7);
    assert!(matches!(events.as_slice(), [DomainEvent::ConnectionChanged(ConnectionState::Failed { reason })]
        if reason == "failed to decode NapCat event: expected value at line 1"));
}

#[test]
fn times_that_overflow_are_detected() {
    let mut e = envelope();
    assert!(event_time_fits(&e));
    e.time = Some(9_223_372_036_854_775);
    assert!(event_time_fits(&e));
    e.time = Some(9_223_372_036_854_776);
    assert!(!event_time_fits(&e));
    e.time = Some(-9_223_372_036_854_776);
    assert!(!event_time_fits(&e));
    e.post_type = None;
    assert!(event_time_fits(&e));
}

#[test]
fn authorization_header_texts() {
    assert_eq!(bearer_authorization("abc"), "Bearer abc");
    match invalid_token_error("bad char") {
        CoreError::Gateway(d) => assert_eq!(d, "invalid access token header: bad char"),
        other => panic!("unexpected {other:?}"),
    }
}

#[test]
fn message_events_reach_the_client_state() {
    let mut state = qq_lite::ClientState::default();
    for event in events_from_message(envelope(), 1) {
        state.apply(event);
    }
    let views = state.conversation_views();
    assert_eq!(views.len(), 1);
    assert_eq!(views[0].id.as_str(), "group:9001");
    assert_eq!(views[0].last_message_preview.as_deref(), Some("raw text"));
    assert_eq!(views[0].updated_at_ms, 1_700_000_000_000);
    let timeline = state.timeline_view(&ConversationId::from("group:9001"));
    assert_eq!(timeline.messages.len(), 1);
    assert_eq!(timeline.messages[0].sender_id.as_str(), "42");
}

#[test]
fn only_message_events_carry_a_message() {
    assert!(carries_message(&envelope()));
    let mut notice = envelope();
    notice.post_type = Some("notice".to_owned());
    assert!(!carries_message(&notice));
    let mut no_sender = envelope();
    no_sender.user_id = None;
    assert!(!carries_message(&no_sender));
    let mut private = envelope();
    private.message_type = Some("private".to_owned());
    private.group_id = None;
    assert!(carries_message(&private));
}

#[test]
fn a_frame_message_takes_its_counter() {
    let events = events_from_frame(Ok(envelope()), 41);
    match &events[1] {
        DomainEvent::MessageReceived(m) => {
            assert!(m.local_id.as_str().starts_with("local-"));
            assert!(m.local_id.as_str().ends_with("-41"));
        },
        other => panic!("unexpected {other:?}"),
    }
    let again = events_from_frame(Ok(envelope()), 42);
    let (DomainEvent::MessageReceived(a), DomainEvent::MessageReceived(b)) = (&events[1], &again[1]) else { panic!() };
    assert_ne!(a.local_id, b.local_id);
}

#[test]
fn texts_follow_the_last_connection_command() {
    let send = || ClientCommand::SendTextMessage { conversation_id: ConversationId::from("private:3"), text: "t".to_owned() };
    let first = ConnectionConfig { endpoint: "ws://a".to_owned(), access_token: None, reconnect: false };
    let second = ConnectionConfig { endpoint: "ws://b".to_owned(), access_token: Some("k".to_owned()), reconnect: true };
    let mut gateway = GatewayState::new();
    for command in [
        ClientCommand::Connect(first.clone()),
        ClientCommand::LoadConversations,
        ClientCommand::Connect(second.clone()),
        send(),
        ClientCommand::LoadMessages { conversation_id: ConversationId::from("private:3"), limit: 5 },
    ] {
        gateway.handle(command);
    }
    match &gateway.handle(send())[..] {
        [GatewayAction::SendAction(c, request)] => {
            assert_eq!(c.endpoint, "ws://b");
            assert_eq!(request.action, "send_private_msg");
            assert!(matches!(request.params.target, ActionTarget::Id(3)));
        },
        other => panic!("unexpected {other:?}"),
    }
    gateway.handle(ClientCommand::Disconnect);
    gateway.handle(ClientCommand::LoadConversations);
    assert!(matches!(&gateway.handle(send())[..],
        [GatewayAction::Publish(DomainEvent::ConnectionChanged(ConnectionState::Failed { reason }))] if reason == "not connected to NapCat"));
    gateway.handle(ClientCommand::Connect(first.clone()));
    assert!(matches!(&gateway.handle(send())[..], [GatewayAction::SendAction(c, _)] if c.endpoint == "ws://a"));
}
