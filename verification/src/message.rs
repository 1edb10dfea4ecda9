//! Messages and the rich text they carry.
use vstd::prelude::*;
use vstd::string::*;
use crate::id::{ConversationId, LocalMessageId, RemoteMessageId, UserId, is_generated_local_id};
use crate::text::opt_text;

verus! {

/// A JSON value from `serde_json`, carried through as it came.
#[verifier::external_type_specification]
#[verifier::external_body]
pub struct ExJsonValue(serde_json::Value);

/// Whether a message was received or is being sent by this client.
#[derive(Clone, Copy, Debug, PartialEq, Eq, Structural)]
pub enum MessageDirection {
    Incoming,
    Outgoing,
}

/// Where a message stands in delivery.
#[derive(Debug)]
pub enum SendState {
    Received,
    Pending,
    Sent,
    Failed { reason: String },
}

/// One piece of a message: text, or something this client does not show.
#[derive(Debug)]
pub enum RichNode {
    Text { text: String },
    Unsupported { kind: String, summary: String },
}

/// A message of a conversation.
#[derive(Clone, Debug)]
pub struct Message {
    pub local_id: LocalMessageId,
    pub remote_id: Option<RemoteMessageId>,
    pub conversation_id: ConversationId,
    pub sender_id: UserId,
    pub sender_name: Option<String>,
    pub direction: MessageDirection,
    pub sent_at_ms: i64,
    pub nodes: Vec<RichNode>,
    pub raw_json: Option<serde_json::Value>,
    pub send_state: SendState,
}

impl Clone for SendState {
    fn clone(&self) -> (res: Self)
        ensures
            res == *self,
    {
        match self {
            SendState::Received => SendState::Received,
            SendState::Pending => SendState::Pending,
            SendState::Sent => SendState::Sent,
            SendState::Failed { reason } => SendState::Failed { reason: reason.clone() },
        }
    }
}

impl PartialEq for SendState {
    fn eq(&self, other: &Self) -> (res: bool) {
        match self {
            SendState::Received => matches!(other, SendState::Received),
            SendState::Pending => matches!(other, SendState::Pending),
            SendState::Sent => matches!(other, SendState::Sent),
            SendState::Failed { reason: a } => match other {
                SendState::Failed { reason: b } => *a == *b,
                _ => false,
            },
        }
    }
}

impl vstd::std_specs::cmp::PartialEqSpecImpl for SendState {
    open spec fn obeys_eq_spec() -> bool {
        true
    }

    open spec fn eq_spec(&self, other: &Self) -> bool {
        match (*self, *other) {
            (SendState::Received, SendState::Received) => true,
            (SendState::Pending, SendState::Pending) => true,
            (SendState::Sent, SendState::Sent) => true,
            (SendState::Failed { reason: a }, SendState::Failed { reason: b }) => a@ == b@,
            _ => false,
        }
    }
}

impl Eq for SendState {
}

impl Clone for RichNode {
    fn clone(&self) -> (res: Self)
        ensures
            res == *self,
    {
        match self {
            RichNode::Text { text } => RichNode::Text { text: text.clone() },
            RichNode::Unsupported { kind, summary } => RichNode::Unsupported {
                kind: kind.clone(),
                summary: summary.clone(),
            },
        }
    }
}

impl PartialEq for RichNode {
    fn eq(&self, other: &Self) -> (res: bool) {
        match self {
            RichNode::Text { text: a } => match other {
                RichNode::Text { text: b } => *a == *b,
                _ => false,
            },
            RichNode::Unsupported { kind: k1, summary: s1 } => match other {
                RichNode::Unsupported { kind: k2, summary: s2 } => *k1 == *k2 && *s1 == *s2,
                _ => false,
            },
        }
    }
}

impl vstd::std_specs::cmp::PartialEqSpecImpl for RichNode {
    open spec fn obeys_eq_spec() -> bool {
        true
    }

    open spec fn eq_spec(&self, other: &Self) -> bool {
        match (*self, *other) {
            (RichNode::Text { text: a }, RichNode::Text { text: b }) => a@ == b@,
            (
                RichNode::Unsupported { kind: k1, summary: s1 },
                RichNode::Unsupported { kind: k2, summary: s2 },
            ) => k1@ == k2@ && s1@ == s2@,
            _ => false,
        }
    }
}

impl Eq for RichNode {
}

/// A message as plain values: its ids and texts as characters.
pub struct MessageModel {
    pub local_id: Seq<char>,
    pub remote_id: Option<Seq<char>>,
    pub conversation_id: Seq<char>,
    pub sender_id: Seq<char>,
    pub sender_name: Option<Seq<char>>,
    pub direction: MessageDirection,
    pub sent_at_ms: i64,
    pub nodes: Seq<RichNode>,
    pub raw_json: Option<serde_json::Value>,
    pub send_state: SendState,
}

/// The characters of an optional remote id.
pub open spec fn opt_remote_text(value: Option<RemoteMessageId>) -> Option<Seq<char>> {
    match value {
        Some(id) => Some(id@),
        None => None,
    }
}

impl View for Message {
    type V = MessageModel;

    open spec fn view(&self) -> MessageModel {
        MessageModel {
            local_id: self.local_id@,
            remote_id: opt_remote_text(self.remote_id),
            conversation_id: self.conversation_id@,
            sender_id: self.sender_id@,
            sender_name: opt_text(self.sender_name),
            direction: self.direction,
            sent_at_ms: self.sent_at_ms,
            nodes: self.nodes@,
            raw_json: self.raw_json,
            send_state: self.send_state,
        }
    }
}

/// The text a node shows in a preview: its text, or the summary of what it
/// stands for.
pub open spec fn node_text(node: RichNode) -> Seq<char> {
    match node {
        RichNode::Text { text } => text@,
        RichNode::Unsupported { summary, .. } => summary@,
    }
}

/// The texts of the nodes, one after another.
pub open spec fn nodes_text(nodes: Seq<RichNode>) -> Seq<char>
    decreases nodes.len(),
{
    if nodes.len() == 0 {
        Seq::empty()
    } else {
        nodes_text(nodes.drop_last()) + node_text(nodes.last())
    }
}

/// Law: the text of nodes put one after another is their texts one after
/// another, whatever the nodes are and wherever they stand.
pub proof fn lemma_nodes_text_concat(a: Seq<RichNode>, b: Seq<RichNode>)
    ensures
        nodes_text(a + b) == nodes_text(a) + nodes_text(b),
    decreases b.len(),
{
    if b.len() == 0 {
        assert(a + b =~= a);
        assert(nodes_text(a) + nodes_text(b) =~= nodes_text(a));
    } else {
        lemma_nodes_text_concat(a, b.drop_last());
        assert((a + b).drop_last() =~= a + b.drop_last());
        assert((a + b).last() == b.last());
        assert(nodes_text(a) + nodes_text(b.drop_last()) + node_text(b.last()) =~= nodes_text(a) + (nodes_text(
            b.drop_last(),
        ) + node_text(b.last())));
    }
}

/// Law: a single node shows its text, or, for what this client does not show,
/// its summary.
pub proof fn lemma_nodes_text_single(n: RichNode)
    ensures
        nodes_text(seq![n]) == match n {
            RichNode::Text { text } => text@,
            RichNode::Unsupported { summary, .. } => summary@,
        },
{
    let one = seq![n];
    assert(one.drop_last() =~= Seq::<RichNode>::empty());
    assert(one.last() == n);
    assert(nodes_text(Seq::<RichNode>::empty()) == Seq::<char>::empty());
    assert(nodes_text(one) == nodes_text(one.drop_last()) + node_text(one.last()));
    assert(Seq::<char>::empty() + node_text(n) =~= node_text(n));
}

/// A copy of a sequence of nodes.
pub fn clone_nodes(nodes: &Vec<RichNode>) -> (res: Vec<RichNode>)
    ensures
        res@ == nodes@,
{
    let mut res: Vec<RichNode> = Vec::new();
    for i in 0..nodes.len()
        invariant
            res@ == nodes@.take(i as int),
    {
        res.push(nodes[i].clone());
        assert(res@ =~= nodes@.take(i + 1));
    }
    assert(nodes@.take(nodes.len() as int) =~= nodes@);
    res
}

impl Message {
    /// A text message that this client is about to send: a fresh local id
    /// generated with `counter` (see `LocalMessageId::generated`), no
    /// remote id yet, one text node, and the pending state.
    pub fn outgoing_text(
        conversation_id: ConversationId,
        sender_id: UserId,
        text: String,
        sent_at_ms: i64,
        counter: u64,
    ) -> (m: Self)
        ensures
            is_generated_local_id(m.local_id@, counter),
            m.remote_id is None,
            m.conversation_id == conversation_id,
            m.sender_id == sender_id,
            m.sender_name is None,
            m.direction == MessageDirection::Outgoing,
            m.sent_at_ms == sent_at_ms,
            m.nodes@ == seq![RichNode::Text { text }],
            m.raw_json is None,
            m.send_state == SendState::Pending,
    {
        let nodes = vec![RichNode::Text { text }];
        Message {
            local_id: LocalMessageId::generated(counter),
            remote_id: None,
            conversation_id,
            sender_id,
            sender_name: None,
            direction: MessageDirection::Outgoing,
            sent_at_ms,
            nodes,
            raw_json: None,
            send_state: SendState::Pending,
        }
    }

    /// The text of the message's nodes, one after another.
    pub fn preview(&self) -> (text: String)
        ensures
            text@ == nodes_text(self.nodes@),
    {
        let mut text = String::new();
        for i in 0..self.nodes.len()
            invariant
                text@ == nodes_text(self.nodes@.take(i as int)),
        {
            match &self.nodes[i] {
                RichNode::Text { text: t } => text.append(t.as_str()),
                RichNode::Unsupported { summary, .. } => text.append(summary.as_str()),
            }
            assert(self.nodes@.take(i + 1).drop_last() =~= self.nodes@.take(i as int));
        }
        assert(self.nodes@.take(self.nodes.len() as int) =~= self.nodes@);
        text
    }
}

} // verus!
