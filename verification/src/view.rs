//! What the user interface shows: conversations and timelines.
use vstd::prelude::*;
use crate::conversation::{Conversation, ConversationKind, ConversationModel};
use crate::text::opt_text;
use crate::id::{ConversationId, LocalMessageId, RemoteMessageId, UserId};
use crate::message::{Message, MessageDirection, RichNode, SendState, opt_remote_text};

verus! {

/// A conversation as a list shows it.
#[derive(Clone, Debug)]
pub struct ConversationView {
    pub id: ConversationId,
    pub kind: ConversationKind,
    pub title: String,
    pub last_message_preview: Option<String>,
    pub updated_at_ms: i64,
    pub unread_count: u32,
}

/// A message as a timeline shows it: the message without its raw JSON.
#[derive(Clone, Debug)]
pub struct MessageView {
    pub local_id: LocalMessageId,
    pub remote_id: Option<RemoteMessageId>,
    pub conversation_id: ConversationId,
    pub sender_id: UserId,
    pub sender_name: Option<String>,
    pub direction: MessageDirection,
    pub sent_at_ms: i64,
    pub nodes: Vec<RichNode>,
    pub send_state: SendState,
}

/// The messages of one conversation, in order.
#[derive(Clone, Debug)]
pub struct TimelineView {
    pub conversation_id: ConversationId,
    pub messages: Vec<MessageView>,
}

impl View for ConversationView {
    type V = ConversationModel;

    open spec fn view(&self) -> ConversationModel {
        ConversationModel {
            id: self.id@,
            kind: self.kind,
            title: self.title@,
            last_message_preview: opt_text(self.last_message_preview),
            updated_at_ms: self.updated_at_ms,
            unread_count: self.unread_count,
        }
    }
}

/// A message view as plain values.
pub struct MessageViewModel {
    pub local_id: Seq<char>,
    pub remote_id: Option<Seq<char>>,
    pub conversation_id: Seq<char>,
    pub sender_id: Seq<char>,
    pub sender_name: Option<Seq<char>>,
    pub direction: MessageDirection,
    pub sent_at_ms: i64,
    pub nodes: Seq<RichNode>,
    pub send_state: SendState,
}

impl View for MessageView {
    type V = MessageViewModel;

    open spec fn view(&self) -> MessageViewModel {
        MessageViewModel {
            local_id: self.local_id@,
            remote_id: opt_remote_text(self.remote_id),
            conversation_id: self.conversation_id@,
            sender_id: self.sender_id@,
            sender_name: opt_text(self.sender_name),
            direction: self.direction,
            sent_at_ms: self.sent_at_ms,
            nodes: self.nodes@,
            send_state: self.send_state,
        }
    }
}

/// What a timeline shows of a message: everything but its raw JSON.
pub open spec fn message_view_model(m: Message) -> MessageViewModel {
    MessageViewModel {
        local_id: m.local_id@,
        remote_id: opt_remote_text(m.remote_id),
        conversation_id: m.conversation_id@,
        sender_id: m.sender_id@,
        sender_name: opt_text(m.sender_name),
        direction: m.direction,
        sent_at_ms: m.sent_at_ms,
        nodes: m.nodes@,
        send_state: m.send_state,
    }
}

/// The view of a conversation: the same fields.
pub open spec fn conversation_view_of(c: Conversation) -> ConversationView {
    ConversationView {
        id: c.id,
        kind: c.kind,
        title: c.title,
        last_message_preview: c.last_message_preview,
        updated_at_ms: c.updated_at_ms,
        unread_count: c.unread_count,
    }
}

/// The view of a message: its fields but the raw JSON.
pub open spec fn message_view_of(m: Message) -> MessageView {
    MessageView {
        local_id: m.local_id,
        remote_id: m.remote_id,
        conversation_id: m.conversation_id,
        sender_id: m.sender_id,
        sender_name: m.sender_name,
        direction: m.direction,
        sent_at_ms: m.sent_at_ms,
        nodes: m.nodes,
        send_state: m.send_state,
    }
}

impl From<Conversation> for ConversationView {
    fn from(value: Conversation) -> (view: Self) {
        ConversationView {
            id: value.id,
            kind: value.kind,
            title: value.title,
            last_message_preview: value.last_message_preview,
            updated_at_ms: value.updated_at_ms,
            unread_count: value.unread_count,
        }
    }
}

impl vstd::std_specs::convert::FromSpecImpl<Conversation> for ConversationView {
    open spec fn obeys_from_spec() -> bool {
        true
    }

    open spec fn from_spec(value: Conversation) -> Self {
        conversation_view_of(value)
    }
}

impl From<Message> for MessageView {
    fn from(value: Message) -> (view: Self) {
        MessageView {
            local_id: value.local_id,
            remote_id: value.remote_id,
            conversation_id: value.conversation_id,
            sender_id: value.sender_id,
            sender_name: value.sender_name,
            direction: value.direction,
            sent_at_ms: value.sent_at_ms,
            nodes: value.nodes,
            send_state: value.send_state,
        }
    }
}

impl vstd::std_specs::convert::FromSpecImpl<Message> for MessageView {
    open spec fn obeys_from_spec() -> bool {
        true
    }

    open spec fn from_spec(value: Message) -> Self {
        message_view_of(value)
    }
}

} // verus!
