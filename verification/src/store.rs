//! How conversations and messages are laid out as rows of the message store,
//! and read back from them.
use vstd::prelude::*;
use vstd::string::*;
use crate::conversation::{Conversation, ConversationKind, ConversationModel};
use crate::event::DomainEvent;
use crate::id::{ConversationId, LocalMessageId, RemoteMessageId, UserId};
use crate::message::{Message, MessageDirection, MessageModel, RichNode, SendState};
use crate::text::{opt_text, same_text};

verus! {

/// The stored name of a conversation kind.
pub open spec fn kind_text(kind: ConversationKind) -> Seq<char> {
    match kind {
        ConversationKind::Private => "private"@,
        ConversationKind::Group => "group"@,
    }
}

/// The kind a stored name stands for: `group`, or private for anything else.
pub open spec fn kind_from_text(value: Seq<char>) -> ConversationKind {
    if value == "group"@ {
        ConversationKind::Group
    } else {
        ConversationKind::Private
    }
}

/// The stored name of a message direction: its `Debug` name.
pub open spec fn direction_text(direction: MessageDirection) -> Seq<char> {
    match direction {
        MessageDirection::Incoming => "Incoming"@,
        MessageDirection::Outgoing => "Outgoing"@,
    }
}

/// The direction a stored name stands for: `Outgoing`, or incoming for
/// anything else.
pub open spec fn direction_from_text(value: Seq<char>) -> MessageDirection {
    if value == "Outgoing"@ {
        MessageDirection::Outgoing
    } else {
        MessageDirection::Incoming
    }
}

/// The stored name of a conversation kind.
pub fn kind_to_str(kind: &ConversationKind) -> (name: &'static str)
    ensures
        name@ == kind_text(*kind),
{
    match kind {
        ConversationKind::Private => "private",
        ConversationKind::Group => "group",
    }
}

/// The kind a stored name stands for.
pub fn parse_kind(value: &str) -> (kind: ConversationKind)
    ensures
        kind == kind_from_text(value@),
{
    if same_text(value, "group") {
        ConversationKind::Group
    } else {
        ConversationKind::Private
    }
}

/// The stored name of a message direction.
pub fn direction_to_str(direction: &MessageDirection) -> (name: &'static str)
    ensures
        name@ == direction_text(*direction),
{
    match direction {
        MessageDirection::Incoming => "Incoming",
        MessageDirection::Outgoing => "Outgoing",
    }
}

/// The direction a stored name stands for.
pub fn parse_direction(value: &str) -> (direction: MessageDirection)
    ensures
        direction == direction_from_text(value@),
{
    if same_text(value, "Outgoing") {
        MessageDirection::Outgoing
    } else {
        MessageDirection::Incoming
    }
}

/// Law: a stored kind reads back as the kind that was stored.
pub proof fn lemma_kind_round_trip(kind: ConversationKind)
    ensures
        kind_from_text(kind_text(kind)) == kind,
{
    reveal_strlit("private");
    reveal_strlit("group");
    assert("private"@[0] != "group"@[0]);
}

/// Law: a stored direction reads back as the direction that was stored.
pub proof fn lemma_direction_round_trip(direction: MessageDirection)
    ensures
        direction_from_text(direction_text(direction)) == direction,
{
    reveal_strlit("Incoming");
    reveal_strlit("Outgoing");
    assert("Incoming"@[0] != "Outgoing"@[0]);
}

/// A row of the conversations table.
#[derive(Debug)]
pub struct ConversationRow {
    pub id: String,
    pub kind: String,
    pub title: String,
    pub last_message_preview: Option<String>,
    pub updated_at_ms: i64,
    pub unread_count: i64,
}

/// A conversation row as plain values.
pub struct ConversationRowModel {
    pub id: Seq<char>,
    pub kind: Seq<char>,
    pub title: Seq<char>,
    pub last_message_preview: Option<Seq<char>>,
    pub updated_at_ms: i64,
    pub unread_count: i64,
}

impl View for ConversationRow {
    type V = ConversationRowModel;

    open spec fn view(&self) -> ConversationRowModel {
        ConversationRowModel {
            id: self.id@,
            kind: self.kind@,
            title: self.title@,
            last_message_preview: opt_text(self.last_message_preview),
            updated_at_ms: self.updated_at_ms,
            unread_count: self.unread_count,
        }
    }
}

/// The row a conversation is stored as.
pub open spec fn conversation_row_spec(c: ConversationModel) -> ConversationRowModel {
    ConversationRowModel {
        id: c.id,
        kind: kind_text(c.kind),
        title: c.title,
        last_message_preview: c.last_message_preview,
        updated_at_ms: c.updated_at_ms,
        unread_count: c.unread_count as i64,
    }
}

/// The conversation a row is read as; the unread count keeps the low 32 bits
/// of the stored number.
pub open spec fn conversation_from_row_spec(r: ConversationRowModel) -> ConversationModel {
    ConversationModel {
        id: r.id,
        kind: kind_from_text(r.kind),
        title: r.title,
        last_message_preview: r.last_message_preview,
        updated_at_ms: r.updated_at_ms,
        unread_count: r.unread_count as u32,
    }
}

/// The row a conversation is stored as.
pub fn conversation_row(conversation: &Conversation) -> (row: ConversationRow)
    ensures
        row@ == conversation_row_spec(conversation@),
{
    ConversationRow {
        id: String::from_str(conversation.id.as_str()),
        kind: String::from_str(kind_to_str(&conversation.kind)),
        title: conversation.title.clone(),
        last_message_preview: crate::text::clone_opt_text(&conversation.last_message_preview),
        updated_at_ms: conversation.updated_at_ms,
        unread_count: conversation.unread_count as i64,
    }
}

/// The conversation a row is read as.
pub fn conversation_from_row(row: ConversationRow) -> (conversation: Conversation)
    ensures
        conversation@ == conversation_from_row_spec(row@),
{
    let kind = parse_kind(row.kind.as_str());
    Conversation {
        id: ConversationId::new(row.id),
        kind,
        title: row.title,
        last_message_preview: row.last_message_preview,
        updated_at_ms: row.updated_at_ms,
        unread_count: row.unread_count as u32,
    }
}

/// Law: a stored conversation reads back as the conversation that was stored.
pub proof fn lemma_conversation_round_trip(c: ConversationModel)
    ensures
        conversation_from_row_spec(conversation_row_spec(c)) == c,
{
    lemma_kind_round_trip(c.kind);
}

/// The conversations of the rows, in the order of the rows (the store lists
/// them newest first).
pub fn conversations_from_rows(rows: Vec<ConversationRow>) -> (conversations: Vec<Conversation>)
    ensures
        conversations.len() == rows.len(),
        forall|i: int|
            0 <= i < rows.len() ==> (#[trigger] conversations@[i])@ == conversation_from_row_spec(rows@[i]@),
{
    let ghost all = rows@;
    let mut rest = rows;
    let mut conversations: Vec<Conversation> = Vec::new();
    while rest.len() > 0
        invariant
            conversations.len() + rest.len() == all.len(),
            rest@ == all.skip(conversations.len() as int),
            forall|i: int|
                0 <= i < conversations.len() ==> (#[trigger] conversations@[i])@ == conversation_from_row_spec(
                    all[i]@,
                ),
        decreases rest.len(),
    {
        let row = rest.remove(0);
        conversations.push(conversation_from_row(row));
        assert(rest@ =~= all.skip(conversations.len() as int));
    }
    conversations
}

/// A row of the messages table; the nodes, the raw JSON and the send state
/// are the values that the row's JSON columns hold.
#[derive(Debug)]
pub struct MessageRow {
    pub local_id: String,
    pub remote_id: Option<String>,
    pub conversation_id: String,
    pub sender_id: String,
    pub sender_name: Option<String>,
    pub direction: String,
    pub sent_at_ms: i64,
    pub nodes: Vec<RichNode>,
    pub raw_json: Option<serde_json::Value>,
    pub send_state: SendState,
}

/// A message row as plain values.
pub struct MessageRowModel {
    pub local_id: Seq<char>,
    pub remote_id: Option<Seq<char>>,
    pub conversation_id: Seq<char>,
    pub sender_id: Seq<char>,
    pub sender_name: Option<Seq<char>>,
    pub direction: Seq<char>,
    pub sent_at_ms: i64,
    pub nodes: Seq<RichNode>,
    pub raw_json: Option<serde_json::Value>,
    pub send_state: SendState,
}

impl View for MessageRow {
    type V = MessageRowModel;

    open spec fn view(&self) -> MessageRowModel {
        MessageRowModel {
            local_id: self.local_id@,
            remote_id: opt_text(self.remote_id),
            conversation_id: self.conversation_id@,
            sender_id: self.sender_id@,
            sender_name: opt_text(self.sender_name),
            direction: self.direction@,
            sent_at_ms: self.sent_at_ms,
            nodes: self.nodes@,
            raw_json: self.raw_json,
            send_state: self.send_state,
        }
    }
}

/// The row a message is stored as.
pub open spec fn message_row_spec(m: MessageModel) -> MessageRowModel {
    MessageRowModel {
        local_id: m.local_id,
        remote_id: m.remote_id,
        conversation_id: m.conversation_id,
        sender_id: m.sender_id,
        sender_name: m.sender_name,
        direction: direction_text(m.direction),
        sent_at_ms: m.sent_at_ms,
        nodes: m.nodes,
        raw_json: m.raw_json,
        send_state: m.send_state,
    }
}

/// The message a row is read as.
pub open spec fn message_from_row_spec(r: MessageRowModel) -> MessageModel {
    MessageModel {
        local_id: r.local_id,
        remote_id: r.remote_id,
        conversation_id: r.conversation_id,
        sender_id: r.sender_id,
        sender_name: r.sender_name,
        direction: direction_from_text(r.direction),
        sent_at_ms: r.sent_at_ms,
        nodes: r.nodes,
        raw_json: r.raw_json,
        send_state: r.send_state,
    }
}

/// The row a message is stored as.
pub fn message_row(message: Message) -> (row: MessageRow)
    ensures
        row@ == message_row_spec(message@),
{
    let direction = String::from_str(direction_to_str(&message.direction));
    let remote_id = match message.remote_id {
        Some(id) => Some(id.into_string()),
        None => None,
    };
    MessageRow {
        local_id: message.local_id.into_string(),
        remote_id,
        conversation_id: message.conversation_id.into_string(),
        sender_id: message.sender_id.into_string(),
        sender_name: message.sender_name,
        direction,
        sent_at_ms: message.sent_at_ms,
        nodes: message.nodes,
        raw_json: message.raw_json,
        send_state: message.send_state,
    }
}

/// The message a row is read as.
pub fn message_from_row(row: MessageRow) -> (message: Message)
    ensures
        message@ == message_from_row_spec(row@),
{
    let direction = parse_direction(row.direction.as_str());
    let remote_id = match row.remote_id {
        Some(id) => Some(RemoteMessageId::new(id)),
        None => None,
    };
    Message {
        local_id: LocalMessageId::new(row.local_id),
        remote_id,
        conversation_id: ConversationId::new(row.conversation_id),
        sender_id: UserId::new(row.sender_id),
        sender_name: row.sender_name,
        direction,
        sent_at_ms: row.sent_at_ms,
        nodes: row.nodes,
        raw_json: row.raw_json,
        send_state: row.send_state,
    }
}

/// Law: a stored message reads back as the message that was stored.
pub proof fn lemma_message_round_trip(m: MessageModel)
    ensures
        message_from_row_spec(message_row_spec(m)) == m,
{
    lemma_direction_round_trip(m.direction);
}

/// Law: each column of a message's row holds the message's field of the same
/// name (so the row is found by its message's conversation); the direction
/// column holds `Incoming` or `Outgoing`.
pub proof fn lemma_message_row_columns(m: MessageModel)
    ensures
        message_row_spec(m).local_id == m.local_id,
        message_row_spec(m).remote_id == m.remote_id,
        message_row_spec(m).conversation_id == m.conversation_id,
        message_row_spec(m).sender_id == m.sender_id,
        message_row_spec(m).sender_name == m.sender_name,
        message_row_spec(m).direction == match m.direction {
            MessageDirection::Incoming => "Incoming"@,
            MessageDirection::Outgoing => "Outgoing"@,
        },
        message_row_spec(m).sent_at_ms == m.sent_at_ms,
        message_row_spec(m).nodes == m.nodes,
        message_row_spec(m).raw_json == m.raw_json,
        message_row_spec(m).send_state == m.send_state,
{
}

/// Law: each field of a message read from a row comes from the column of the
/// same name; the direction is outgoing exactly when the column says
/// `Outgoing`.
pub proof fn lemma_message_from_row_columns(r: MessageRowModel)
    ensures
        message_from_row_spec(r).local_id == r.local_id,
        message_from_row_spec(r).remote_id == r.remote_id,
        message_from_row_spec(r).conversation_id == r.conversation_id,
        message_from_row_spec(r).sender_id == r.sender_id,
        message_from_row_spec(r).sender_name == r.sender_name,
        message_from_row_spec(r).direction == if r.direction == "Outgoing"@ {
            MessageDirection::Outgoing
        } else {
            MessageDirection::Incoming
        },
        message_from_row_spec(r).sent_at_ms == r.sent_at_ms,
        message_from_row_spec(r).nodes == r.nodes,
        message_from_row_spec(r).raw_json == r.raw_json,
        message_from_row_spec(r).send_state == r.send_state,
{
}

/// Law: each column of a conversation's row holds the conversation's field of
/// the same name; the kind column holds `private` or `group`.
pub proof fn lemma_conversation_row_columns(c: ConversationModel)
    ensures
        conversation_row_spec(c).id == c.id,
        conversation_row_spec(c).kind == match c.kind {
            ConversationKind::Private => "private"@,
            ConversationKind::Group => "group"@,
        },
        conversation_row_spec(c).title == c.title,
        conversation_row_spec(c).last_message_preview == c.last_message_preview,
        conversation_row_spec(c).updated_at_ms == c.updated_at_ms,
        conversation_row_spec(c).unread_count == c.unread_count,
{
}

/// Law: each field of a conversation read from a row comes from the column of
/// the same name; the kind is a group exactly when the column says `group`.
pub proof fn lemma_conversation_from_row_columns(r: ConversationRowModel)
    ensures
        conversation_from_row_spec(r).id == r.id,
        conversation_from_row_spec(r).kind == if r.kind == "group"@ {
            ConversationKind::Group
        } else {
            ConversationKind::Private
        },
        conversation_from_row_spec(r).title == r.title,
        conversation_from_row_spec(r).last_message_preview == r.last_message_preview,
        conversation_from_row_spec(r).updated_at_ms == r.updated_at_ms,
        0 <= r.unread_count <= u32::MAX ==> conversation_from_row_spec(r).unread_count == r.unread_count,
{
}

/// The messages of the rows in timeline order: the store lists the newest
/// first, so the rows are read back to front.
pub fn messages_from_rows(rows: Vec<MessageRow>) -> (messages: Vec<Message>)
    ensures
        messages.len() == rows.len(),
        forall|i: int|
            0 <= i < rows.len() ==> (#[trigger] messages@[i])@ == message_from_row_spec(
                rows@[rows.len() - 1 - i]@,
            ),
{
    let ghost all = rows@;
    let mut rest = rows;
    let mut messages: Vec<Message> = Vec::new();
    while rest.len() > 0
        invariant
            messages.len() + rest.len() == all.len(),
            rest@ == all.take(rest.len() as int),
            forall|i: int|
                0 <= i < messages.len() ==> (#[trigger] messages@[i])@ == message_from_row_spec(
                    all[all.len() - 1 - i]@,
                ),
        decreases rest.len(),
    {
        let row = rest.pop().unwrap();
        messages.push(message_from_row(row));
        assert(rest@ =~= all.take(rest.len() as int));
    }
    messages
}

/// What the store keeps of an event that the gateway reports.
#[derive(Debug, PartialEq, Eq, Structural)]
pub enum StoreWrite {
    /// Write the updated conversation over its row.
    UpsertConversation,
    /// Write the received message over its row.
    InsertMessage,
    /// Keep nothing.
    Nothing,
}

/// Which write the store makes for a reported event: a conversation update
/// is upserted, a received message inserted, anything else is not stored.
pub fn store_write_for(event: &DomainEvent) -> (write: StoreWrite)
    ensures
        write == match *event {
            DomainEvent::ConversationUpdated(_) => StoreWrite::UpsertConversation,
            DomainEvent::MessageReceived(_) => StoreWrite::InsertMessage,
            _ => StoreWrite::Nothing,
        },
{
    match event {
        DomainEvent::ConversationUpdated(_) => StoreWrite::UpsertConversation,
        DomainEvent::MessageReceived(_) => StoreWrite::InsertMessage,
        _ => StoreWrite::Nothing,
    }
}

} // verus!
