use qq_lite::tui::{conversation_marker, message_lines, selected_conversation, status_line, App, Key, KeyOutcome};
use qq_lite::{
    ClientCommand, ConversationId, ConversationKind, ConversationView, MessageDirection, MessageView, RichNode,
    SendState, UserId,
};
use qq_lite::LocalMessageId;

fn view(id: &str) -> ConversationView {
    ConversationView {
        id: ConversationId::from(id),
        kind: ConversationKind::Group,
        title: id.to_owned(),
        last_message_preview: None,
        updated_at_ms: 0,
        unread_count: 0,
    }
}

fn app(n: usize) -> App {
    let mut app = App::default();
    app.conversations = (0..n).map(|i| view(&format!("c{i}"))).collect();
    app
}

#[test]
fn selection_moves_within_the_list() {
    let mut a = app(3);
    assert!(matches!(a.handle_key(Key::Up), KeyOutcome::Continue));
    assert_eq!(a.selected, 0);
    a.handle_key(Key::Down);
    a.handle_key(Key::Down);
    a.handle_key(Key::Down);
    assert_eq!(a.selected, 2);
    a.handle_key(Key::Up);
    assert_eq!(a.selected, 1);
    assert_eq!(selected_conversation(&a).map(|id| id.as_str().to_owned()), Some("c1".to_owned()));
    let mut empty = app(0);
    empty.handle_key(Key::Down);
    assert_eq!(empty.selected, 0);
    assert!(selected_conversation(&empty).is_none());
    let mut shrunk = app(2);
    shrunk.selected = 5;
    shrunk.handle_key(Key::Down);
    assert_eq!(shrunk.selected, 1);
}

#[test]
fn typing_and_deleting() {
    let mut a = app(1);
    a.handle_key(Key::Char('h'));
    a.handle_key(Key::Char('é'));
    assert_eq!(a.input, "hé");
    a.handle_key(Key::Backspace);
    assert_eq!(a.input, "h");
    a.handle_key(Key::Backspace);
    a.handle_key(Key::Backspace);
    assert_eq!(a.input, "");
    assert!(matches!(a.handle_key(Key::Other), KeyOutcome::Continue));
    assert!(matches!(a.handle_key(Key::Esc), KeyOutcome::Quit));
}

#[test]
fn enter_sends_the_trimmed_text_to_the_selection() {
    let mut a = app(2);
    a.selected = 1;
    a.input = "  hi there\t\n".to_owned();
    match a.handle_key(Key::Enter) {
        KeyOutcome::Send(ClientCommand::SendTextMessage { conversation_id, text }) => {
            assert_eq!(conversation_id.as_str(), "c1");
            assert_eq!(text, "hi there");
        },
        other => panic!("unexpected {other:?}"),
    }
    assert_eq!(a.input, "");
    a.input = " \u{3000} ".to_owned();
    assert!(matches!(a.handle_key(Key::Enter), KeyOutcome::Continue));
    assert_eq!(a.input, " \u{3000} ");
    let mut none = app(0);
    none.input = "x".to_owned();
    assert!(matches!(none.handle_key(Key::Enter), KeyOutcome::Continue));
    assert_eq!(none.input, "x");
}

#[test]
fn drawn_lines() {
    assert_eq!(conversation_marker(2, 2), ">");
    assert_eq!(conversation_marker(1, 2), " ");
    assert_eq!(status_line("connecting"), "connecting | Esc quit | Enter send | NAPCAT_WS configures endpoint");
    let m = MessageView {
        local_id: LocalMessageId::from("l"),
        remote_id: None,
        conversation_id: ConversationId::from("c"),
        sender_id: UserId::from("42"),
        sender_name: None,
        direction: MessageDirection::Incoming,
        sent_at_ms: 0,
        nodes: vec![
            RichNode::Text { text: "a".to_owned() },
            RichNode::Unsupported { kind: "face".to_owned(), summary: "[face]".to_owned() },
        ],
        send_state: SendState::Received,
    };
    assert_eq!(message_lines(&[m]), vec!["42:".to_owned(), "a[face]".to_owned(), String::new()]);
}
