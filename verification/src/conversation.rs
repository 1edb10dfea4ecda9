//! Conversations: one per group or per private peer.
use vstd::prelude::*;
use crate::id::ConversationId;
use crate::text::{clone_opt_text, opt_text};

verus! {

/// Whether a conversation is with one user or with a group.
#[derive(Clone, Copy, Debug, PartialEq, Eq, Structural)]
pub enum ConversationKind {
    Private,
    Group,
}

/// A conversation as the client lists it.
#[derive(Debug)]
pub struct Conversation {
    pub id: ConversationId,
    pub kind: ConversationKind,
    pub title: String,
    pub last_message_preview: Option<String>,
    pub updated_at_ms: i64,
    pub unread_count: u32,
}

/// A conversation as plain values: its texts as characters.
pub struct ConversationModel {
    pub id: Seq<char>,
    pub kind: ConversationKind,
    pub title: Seq<char>,
    pub last_message_preview: Option<Seq<char>>,
    pub updated_at_ms: i64,
    pub unread_count: u32,
}

impl View for Conversation {
    type V = ConversationModel;

    open spec fn view(&self) -> ConversationModel {
        ConversationModel {
            id: self.id@,
            kind: self.kind,
            title: self.title@,
            last_message_preview: opt_text(self.last_message_preview),
            updated_at_ms: self.updated_at_ms,
            unread_count: self.unread_count,
        }
    }
}

impl Conversation {
    /// A conversation with no preview and nothing unread.
    pub fn new(id: ConversationId, kind: ConversationKind, title: String, updated_at_ms: i64) -> (c: Self)
        ensures
            c.id == id,
            c.kind == kind,
            c.title == title,
            c.last_message_preview is None,
            c.updated_at_ms == updated_at_ms,
            c.unread_count == 0,
    {
        Conversation {
            id,
            kind,
            title,
            last_message_preview: None,
            updated_at_ms,
            unread_count: 0,
        }
    }
}

impl Clone for Conversation {
    fn clone(&self) -> (res: Self)
        ensures
            res == *self,
    {
        Conversation {
            id: self.id.clone(),
            kind: self.kind,
            title: self.title.clone(),
            last_message_preview: clone_opt_text(&self.last_message_preview),
            updated_at_ms: self.updated_at_ms,
            unread_count: self.unread_count,
        }
    }
}

} // verus!
