use qq_lite::message::{Message, RichNode, SendState};
use qq_lite::state::ClientState;
use qq_lite::{
    ConnectionState, Conversation, ConversationId, ConversationKind, DomainEvent, LocalMessageId, MessageDirection,
    UserId,
};

fn conversation(id: &str, updated: i64) -> Conversation {
    Conversation::new(ConversationId::from(id), ConversationKind::Group, format!("title {id}"), updated)
}

fn message(conv: &str, local: &str, at: i64, text: &str) -> Message {
    Message {
        local_id: LocalMessageId::from(local),
        remote_id: None,
        conversation_id: ConversationId::from(conv),
        sender_id: UserId::from("u"),
        sender_name: None,
        direction: MessageDirection::Incoming,
        sent_at_ms: at,
        nodes: vec![RichNode::Text { text: text.to_owned() }],
        raw_json: None,
        send_state: SendState::Received,
    }
}

fn timeline_ids(state: &ClientState, conv: &str) -> Vec<String> {
    state
        .timeline_view(&ConversationId::from(conv))
        .messages
        .iter()
        .map(|m| m.local_id.as_str().to_owned())
        .collect()
}

#[test]
fn starts_disconnected_and_empty() {
    let state = ClientState::default();
    assert_eq!(state.connection, ConnectionState::Disconnected);
    assert!(state.conversation_views().is_empty());
    let timeline = state.timeline_view(&ConversationId::from("group:1"));
    assert_eq!(timeline.conversation_id.as_str(), "group:1");
    assert!(timeline.messages.is_empty());
}

#[test]
fn connection_changes_are_kept() {
    let mut state = ClientState::default();
    state.apply(DomainEvent::ConnectionChanged(ConnectionState::Failed { reason: "x".to_owned() }));
    assert_eq!(state.connection, ConnectionState::Failed { reason: "x".to_owned() });
    state.apply(DomainEvent::ConnectionChanged(ConnectionState::Connected));
    assert_eq!(state.connection, ConnectionState::Connected);
}

#[test]
fn conversations_are_listed_newest_first() {
    let mut state = ClientState::default();
    state.apply(DomainEvent::ConversationUpdated(conversation("a", 10)));
    state.apply(DomainEvent::ConversationUpdated(conversation("b", 30)));
    state.apply(DomainEvent::ConversationUpdated(conversation("c", 20)));
    state.apply(DomainEvent::ConversationUpdated(conversation("d", 20)));
    let ids: Vec<_> = state.conversation_views().iter().map(|v| v.id.as_str().to_owned()).collect();
    assert_eq!(ids, vec!["b", "c", "d", "a"]);
}

#[test]
fn a_conversation_update_replaces_the_old_one() {
    let mut state = ClientState::default();
    state.apply(DomainEvent::ConversationUpdated(conversation("a", 10)));
    let mut renamed = conversation("a", 5);
    renamed.title = "renamed".to_owned();
    state.apply(DomainEvent::ConversationUpdated(renamed));
    let views = state.conversation_views();
    assert_eq!(views.len(), 1);
    assert_eq!(views[0].title, "renamed");
    assert_eq!(views[0].updated_at_ms, 5);
}

#[test]
fn messages_are_ordered_by_sent_time_and_stable() {
    let mut state = ClientState::default();
    state.apply(DomainEvent::MessageReceived(message("a", "m30", 30, "x")));
    state.apply(DomainEvent::MessageReceived(message("a", "m10", 10, "x")));
    state.apply(DomainEvent::MessageReceived(message("a", "m20", 20, "x")));
    state.apply(DomainEvent::MessageReceived(message("a", "n20", 20, "x")));
    state.apply(DomainEvent::MessageReceived(message("b", "other", 1, "x")));
    assert_eq!(timeline_ids(&state, "a"), vec!["m10", "m20", "n20", "m30"]);
    assert_eq!(timeline_ids(&state, "b"), vec!["other"]);
    assert!(timeline_ids(&state, "c").is_empty());
}

#[test]
fn a_redelivered_message_replaces_itself_in_place() {
    let mut state = ClientState::default();
    state.apply(DomainEvent::MessageReceived(message("a", "m1", 10, "first")));
    state.apply(DomainEvent::MessageReceived(message("a", "m2", 20, "second")));
    state.apply(DomainEvent::MessageReceived(message("a", "m1", 30, "edited")));
    let timeline = state.timeline_view(&ConversationId::from("a"));
    assert_eq!(timeline.messages.len(), 2);
    assert_eq!(timeline.messages[0].local_id.as_str(), "m1");
    assert_eq!(timeline.messages[0].sent_at_ms, 30);
    assert_eq!(timeline.messages[0].nodes, vec![RichNode::Text { text: "edited".to_owned() }]);
    assert_eq!(timeline.messages[1].local_id.as_str(), "m2");
}

#[test]
fn applying_an_event_twice_is_applying_it_once() {
    let events = vec![
        DomainEvent::ConversationUpdated(conversation("a", 10)),
        DomainEvent::MessageReceived(message("a", "m1", 50, "hi")),
        DomainEvent::MessageSendStateChanged { local_id: LocalMessageId::from("m1"), state: SendState::Sent },
        DomainEvent::StoreSynced,
    ];
    for event in events {
        let mut once = ClientState::default();
        once.apply(DomainEvent::ConversationUpdated(conversation("a", 10)));
        once.apply(event.clone());
        let mut twice = ClientState::default();
        twice.apply(DomainEvent::ConversationUpdated(conversation("a", 10)));
        twice.apply(event.clone());
        twice.apply(event);
        assert_eq!(format!("{:?}", once.conversation_views()), format!("{:?}", twice.conversation_views()));
        assert_eq!(
            format!("{:?}", once.timeline_view(&ConversationId::from("a"))),
            format!("{:?}", twice.timeline_view(&ConversationId::from("a")))
        );
    }
}

#[test]
fn a_message_updates_its_conversation_preview_and_time() {
    let mut state = ClientState::default();
    state.apply(DomainEvent::ConversationUpdated(conversation("a", 100)));
    state.apply(DomainEvent::MessageReceived(message("a", "m1", 50, "older")));
    let view = &state.conversation_views()[0];
    assert_eq!(view.last_message_preview.as_deref(), Some("older"));
    assert_eq!(view.updated_at_ms, 100);
    let mut m = message("a", "m2", 150, "newer ");
    m.nodes.push(RichNode::Unsupported { kind: "image".to_owned(), summary: "[image]".to_owned() });
    state.apply(DomainEvent::MessageReceived(m));
    let view = &state.conversation_views()[0];
    assert_eq!(view.last_message_preview.as_deref(), Some("newer [image]"));
    assert_eq!(view.updated_at_ms, 150);
}

#[test]
fn a_message_for_an_unknown_conversation_keeps_its_timeline_only() {
    let mut state = ClientState::default();
    state.apply(DomainEvent::MessageReceived(message("x", "m1", 1, "hi")));
    assert!(state.conversation_views().is_empty());
    assert_eq!(timeline_ids(&state, "x"), vec!["m1"]);
}

#[test]
fn send_state_changes_reach_the_message() {
    let mut state = ClientState::default();
    let mut pending = message("a", "m1", 1, "hi");
    pending.send_state = SendState::Pending;
    state.apply(DomainEvent::MessageReceived(pending));
    state.apply(DomainEvent::MessageReceived(message("b", "m2", 1, "yo")));
    state.apply(DomainEvent::MessageSendStateChanged {
        local_id: LocalMessageId::from("m1"),
        state: SendState::Failed { reason: "timeout".to_owned() },
    });
    state.apply(DomainEvent::MessageSendStateChanged { local_id: LocalMessageId::from("zz"), state: SendState::Sent });
    let a = state.timeline_view(&ConversationId::from("a"));
    assert_eq!(a.messages[0].send_state, SendState::Failed { reason: "timeout".to_owned() });
    let b = state.timeline_view(&ConversationId::from("b"));
    assert_eq!(b.messages[0].send_state, SendState::Received);
}

#[test]
fn timeline_order_is_what_a_stable_sort_gives() {
    let times = [5, 3, 9, 3, 1, 5, 5, 0, 9, 2, 3, -4, 7];
    let mut state = ClientState::default();
    let mut arrived = Vec::new();
    for (i, t) in times.iter().enumerate() {
        let id = format!("m{i}");
        state.apply(DomainEvent::MessageReceived(message("a", &id, *t, "x")));
        arrived.push((*t, id));
    }
    arrived.sort_by(|a, b| a.0.cmp(&b.0));
    let expected: Vec<String> = arrived.into_iter().map(|(_, id)| id).collect();
    assert_eq!(timeline_ids(&state, "a"), expected);
}

#[test]
fn two_outgoing_messages_keep_their_places() {
    let mut state = ClientState::default();
    let id = || ConversationId::from("private:1");
    state.apply(DomainEvent::ConversationUpdated(Conversation::new(id(), ConversationKind::Private, "A".to_owned(), 10)));
    let m1 = Message::outgoing_text(id(), UserId::from("me"), "x".to_owned(), 30, 1);
    let m2 = Message::outgoing_text(id(), UserId::from("me"), "y".to_owned(), 20, 2);
    assert_ne!(m1.local_id, m2.local_id);
    state.apply(DomainEvent::MessageReceived(m1.clone()));
    state.apply(DomainEvent::MessageReceived(m2.clone()));
    assert_eq!(timeline_ids(&state, "private:1"), vec![m2.local_id.as_str().to_owned(), m1.local_id.as_str().to_owned()]);
    let views = state.conversation_views();
    assert_eq!(views.len(), 1);
    assert_eq!(views[0].title, "A");
    assert_eq!(views[0].last_message_preview.as_deref(), Some("y"));
    assert_eq!(views[0].updated_at_ms, 30);
    assert_eq!(views[0].unread_count, 0);
}

#[test]
fn timelines_stay_sorted_and_update_times_never_fall() {
    let mut state = ClientState::default();
    state.apply(DomainEvent::ConversationUpdated(conversation("g", 50)));
    let mut last_updated = 50;
    for (local, at) in [("a", 40), ("b", 10), ("c", 70), ("d", 70), ("b", 10), ("e", 5)] {
        state.apply(DomainEvent::MessageReceived(message("g", local, at, local)));
        let timeline = state.timeline_view(&ConversationId::from("g"));
        assert!(timeline.messages.windows(2).all(|w| w[0].sent_at_ms <= w[1].sent_at_ms));
        let updated = state.conversation_views()[0].updated_at_ms;
        assert!(updated >= last_updated);
        last_updated = updated;
    }
    assert_eq!(timeline_ids(&state, "g"), vec!["e", "b", "a", "c", "d"]);
    assert_eq!(last_updated, 70);
}
