//! How protocol events become domain events, and how a reply becomes an
//! action.
use vstd::prelude::*;
use vstd::string::*;
use crate::conversation::{Conversation, ConversationKind, ConversationModel};
use crate::event::DomainEvent;
use crate::id::{
    ConversationId, LocalMessageId, RemoteMessageId, UserId, is_generated_local_id, is_uuid_v4_text,
    random_uuid_text,
};
use crate::message::{Message, MessageDirection, RichNode, SendState, opt_remote_text};
use crate::napcat::dto::{
    ActionParams, ActionRequest, ActionTarget, DataField, DataValue, EventEnvelope, MessageSegment,
};
use crate::message::nodes_text;
use crate::state::{
    ClientModel, apply_spec, conversation_of, first_index, has_id, lemma_first_index_found, lemma_first_index_none,
    lemma_first_index_push, lemma_first_index_update, lemma_message_received, timeline_of,
};
use crate::text::{decimal_text, i64_text, parse_i64, parse_i64_spec, push_decimal_i64, same_text, strip_prefix_text};

verus! {

/// A node as plain values.
pub enum NodeModel {
    Text(Seq<char>),
    Unsupported(Seq<char>, Seq<char>),
}

/// A node's texts as characters.
pub open spec fn node_model(n: RichNode) -> NodeModel {
    match n {
        RichNode::Text { text } => NodeModel::Text(text@),
        RichNode::Unsupported { kind, summary } => NodeModel::Unsupported(kind@, summary@),
    }
}

/// Nodes as plain values.
pub open spec fn nodes_model(nodes: Seq<RichNode>) -> Seq<NodeModel> {
    nodes.map_values(|n: RichNode| node_model(n))
}

/// Whether an event is a message post.
pub open spec fn is_message_post(e: EventEnvelope) -> bool {
    e.post_type matches Some(p) && p@ == "message"@
}

/// Whether the mapper gets as far as the event's time: a message post that
/// names its message type and its sender.
pub open spec fn reads_time(e: EventEnvelope) -> bool {
    is_message_post(e) && e.message_type is Some && e.user_id is Some
}

/// The event's time in milliseconds; an event without a time counts as time
/// zero.
pub open spec fn event_time_ms(e: EventEnvelope) -> int {
    (match e.time {
        Some(t) => t as int,
        None => 0,
    }) * 1000
}

/// Whether the event's time in milliseconds fits in an `i64` wherever the
/// mapper computes it.
pub open spec fn time_fits(e: EventEnvelope) -> bool {
    reads_time(e) ==> i64::MIN <= event_time_ms(e) <= i64::MAX
}

/// The conversation an event is about, as id, kind and title: a group
/// message names its group, a private message its sender; any other event
/// names none.
pub open spec fn event_conversation(e: EventEnvelope) -> Option<(Seq<char>, ConversationKind, Seq<char>)> {
    if !reads_time(e) {
        None
    } else {
        let message_type = e.message_type.unwrap()@;
        let user = e.user_id.unwrap() as int;
        if message_type == "group"@ && e.group_id is Some {
            let group = e.group_id.unwrap() as int;
            Some(("group:"@ + decimal_text(group), ConversationKind::Group, "Group "@ + decimal_text(group)))
        } else if message_type == "private"@ {
            Some(("private:"@ + decimal_text(user), ConversationKind::Private, "User "@ + decimal_text(user)))
        } else {
            None
        }
    }
}

/// The conversation that an event updates.
pub open spec fn conversation_from_event(e: EventEnvelope) -> ConversationModel {
    let target = event_conversation(e).unwrap();
    ConversationModel {
        id: target.0,
        kind: target.1,
        title: target.2,
        last_message_preview: None,
        updated_at_ms: event_time_ms(e) as i64,
        unread_count: 0,
    }
}

/// The text of a data value: the string, or the JSON text of another value.
pub open spec fn data_value_text(v: DataValue) -> Seq<char> {
    match v {
        DataValue::Text(s) => s@,
        DataValue::Json(s) => s@,
    }
}

/// Whether a data entry has the given key.
pub open spec fn key_named(key: Seq<char>) -> spec_fn(DataField) -> bool {
    |f: DataField| f.key@ == key
}

/// The text of the first data entry with the given key.
pub open spec fn string_data_spec(data: Seq<DataField>, key: Seq<char>) -> Option<Seq<char>> {
    match first_index(data, key_named(key)) {
        Some(i) => Some(data_value_text(data[i].value)),
        None => None,
    }
}

/// The node a segment becomes: a text segment shows its `text` data (empty
/// where it has none); any other segment is unsupported, summarised as its
/// type in brackets.
pub open spec fn segment_node(seg: MessageSegment) -> NodeModel {
    if seg.kind@ == "text"@ {
        NodeModel::Text(
            match string_data_spec(seg.data@, "text"@) {
                Some(t) => t,
                None => Seq::empty(),
            },
        )
    } else {
        NodeModel::Unsupported(seg.kind@, "["@ + seg.kind@ + "]"@)
    }
}

/// The nodes the segments become.
pub open spec fn segments_model(segs: Seq<MessageSegment>) -> Seq<NodeModel> {
    segs.map_values(|s: MessageSegment| segment_node(s))
}

/// The nodes of a message event: its segments, or, where it has none, its raw
/// text (empty where it has none) as one text node.
pub open spec fn event_nodes(e: EventEnvelope) -> Seq<NodeModel> {
    match e.message {
        Some(segs) => segments_model(segs@),
        None => seq![
            NodeModel::Text(
                match e.raw_message {
                    Some(r) => r@,
                    None => Seq::empty(),
                },
            ),
        ],
    }
}

/// Whether `m` is the message that event `e` carries, whatever its local id:
/// its server id, conversation, sender, time, nodes and raw JSON come from the
/// event, it is incoming and received.
pub open spec fn is_message_from(e: EventEnvelope, m: Message) -> bool {
    &&& opt_remote_text(m.remote_id) == match e.message_id {
        Some(id) => Some(decimal_text(id as int)),
        None => None,
    }
    &&& m.conversation_id@ == event_conversation(e).unwrap().0
    &&& m.sender_id@ == decimal_text(e.user_id.unwrap() as int)
    &&& m.sender_name is None
    &&& m.direction == MessageDirection::Incoming
    &&& m.sent_at_ms == event_time_ms(e)
    &&& nodes_model(m.nodes@) == event_nodes(e)
    &&& m.raw_json == e.raw_json
    &&& m.send_state == SendState::Received
}

/// The conversation of an event and its time, as values.
fn event_target(event: &EventEnvelope) -> (target: Option<(ConversationId, ConversationKind, String, i64)>)
    requires
        time_fits(*event),
    ensures
        match event_conversation(*event) {
            None => target is None,
            Some(t) => target matches Some(x) && x.0@ == t.0 && x.1 == t.1 && x.2@ == t.2 && x.3
                == event_time_ms(*event),
        },
{
    let is_message = match &event.post_type {
        Some(p) => same_text(p.as_str(), "message"),
        None => false,
    };
    if !is_message {
        return None;
    }
    let message_type = match &event.message_type {
        Some(m) => m,
        None => return None,
    };
    let user_id = match event.user_id {
        Some(u) => u,
        None => return None,
    };
    let time = match event.time {
        Some(t) => t,
        None => 0,
    };
    let timestamp_ms = time * 1000;
    if same_text(message_type.as_str(), "group") && event.group_id.is_some() {
        let group_id = match event.group_id {
            Some(g) => g,
            None => 0,
        };
        let mut id = String::from_str("group:");
        push_decimal_i64(&mut id, group_id);
        let mut title = String::from_str("Group ");
        push_decimal_i64(&mut title, group_id);
        Some((ConversationId::new(id), ConversationKind::Group, title, timestamp_ms))
    } else if same_text(message_type.as_str(), "private") {
        let mut id = String::from_str("private:");
        push_decimal_i64(&mut id, user_id);
        let mut title = String::from_str("User ");
        push_decimal_i64(&mut title, user_id);
        Some((ConversationId::new(id), ConversationKind::Private, title, timestamp_ms))
    } else {
        None
    }
}

/// The conversation update that a message event implies; none for other
/// events.
pub fn conversation_event_from_message(event: &EventEnvelope) -> (update: Option<DomainEvent>)
    requires
        time_fits(*event),
    ensures
        event_conversation(*event) is None ==> update is None,
        event_conversation(*event) is Some ==> (update matches Some(DomainEvent::ConversationUpdated(c)) && c@
            == conversation_from_event(*event)),
{
    match event_target(event) {
        Some((id, kind, title, timestamp_ms)) => Some(
            DomainEvent::ConversationUpdated(
                Conversation {
                    id,
                    kind,
                    title,
                    last_message_preview: None,
                    updated_at_ms: timestamp_ms,
                    unread_count: 0,
                },
            ),
        ),
        None => None,
    }
}

/// The text of the first data entry with the given key: a string as it is,
/// another value as its JSON text.
fn string_data(segment: &MessageSegment, key: &str) -> (text: Option<String>)
    ensures
        match text {
            Some(t) => string_data_spec(segment.data@, key@) == Some(t@),
            None => string_data_spec(segment.data@, key@) is None,
        },
{
    let mut i: usize = 0;
    while i < segment.data.len()
        invariant
            i <= segment.data.len(),
            forall|j: int| 0 <= j < i ==> !key_named(key@)(#[trigger] segment.data@[j]),
        decreases segment.data.len() - i,
    {
        if same_text(segment.data[i].key.as_str(), key) {
            proof {
                lemma_first_index_found(segment.data@, key_named(key@), i as int);
            }
            return match &segment.data[i].value {
                DataValue::Text(s) => Some(s.clone()),
                DataValue::Json(s) => Some(s.clone()),
            };
        }
        i = i + 1;
    }
    proof {
        lemma_first_index_none(segment.data@, key_named(key@));
    }
    None
}

/// The node a segment becomes.
fn segment_to_node(segment: &MessageSegment) -> (node: RichNode)
    ensures
        node_model(node) == segment_node(*segment),
{
    if same_text(segment.kind.as_str(), "text") {
        let text = match string_data(segment, "text") {
            Some(t) => t,
            None => String::new(),
        };
        RichNode::Text { text }
    } else {
        let summary = String::from_str("[").concat(segment.kind.as_str()).concat("]");
        RichNode::Unsupported { kind: segment.kind.clone(), summary }
    }
}

/// The nodes the segments become.
fn segments_to_nodes(segments: &[MessageSegment]) -> (nodes: Vec<RichNode>)
    ensures
        nodes_model(nodes@) == segments_model(segments@),
{
    let mut nodes: Vec<RichNode> = Vec::new();
    for i in 0..segments.len()
        invariant
            nodes.len() == i,
            nodes_model(nodes@) == segments_model(segments@.take(i as int)),
    {
        let node = segment_to_node(&segments[i]);
        let ghost before = nodes@;
        nodes.push(node);
        assert forall|j: int| 0 <= j < nodes@.len() implies #[trigger] nodes_model(nodes@)[j] == segments_model(
            segments@.take(i + 1),
        )[j] by {
            if j < i {
                assert(nodes@[j] == before[j]);
                assert(nodes_model(before)[j] == segments_model(segments@.take(i as int))[j]);
            }
        }
        assert(nodes_model(nodes@) =~= segments_model(segments@.take(i + 1)));
    }
    assert(segments@.take(segments@.len() as int) =~= segments@);
    nodes
}

/// The message that a message event carries, under the given local id; none
/// for other events.
pub fn message_event_with_local_id(event: EventEnvelope, local_id: LocalMessageId) -> (received: Option<
    DomainEvent,
>)
    requires
        time_fits(event),
    ensures
        event_conversation(event) is None ==> received is None,
        event_conversation(event) is Some ==> (received matches Some(DomainEvent::MessageReceived(m))
            && m.local_id == local_id && is_message_from(event, m)),
{
    let (conversation_id, timestamp_ms) = match event_target(&event) {
        Some((id, _, _, timestamp_ms)) => (id, timestamp_ms),
        None => return None,
    };
    let user_id = match event.user_id {
        Some(u) => u,
        None => 0,
    };
    let nodes = match &event.message {
        Some(segments) => segments_to_nodes(segments.as_slice()),
        None => {
            let text = match &event.raw_message {
                Some(r) => r.clone(),
                None => String::new(),
            };
            let nodes = vec![RichNode::Text { text }];
            assert(nodes_model(nodes@) =~= event_nodes(event));
            nodes
        },
    };
    let remote_id = match event.message_id {
        Some(id) => Some(RemoteMessageId::new(i64_text(id))),
        None => None,
    };
    Some(
        DomainEvent::MessageReceived(
            Message {
                local_id,
                remote_id,
                conversation_id,
                sender_id: UserId::new(i64_text(user_id)),
                sender_name: None,
                direction: MessageDirection::Incoming,
                sent_at_ms: timestamp_ms,
                nodes,
                raw_json: event.raw_json,
                send_state: SendState::Received,
            },
        ),
    )
}

/// Whether the event carries a message: whether a local id is generated for
/// it (callers take a counter value only then).
pub fn carries_message(event: &EventEnvelope) -> (carries: bool)
    requires
        time_fits(*event),
    ensures
        carries == event_conversation(*event) is Some,
{
    event_target(event).is_some()
}

/// The message that a message event carries, under a fresh local id
/// generated with `counter`; none for other events.
pub fn message_event_from_message(event: EventEnvelope, counter: u64) -> (received: Option<DomainEvent>)
    requires
        time_fits(event),
    ensures
        event_conversation(event) is None ==> received is None,
        event_conversation(event) is Some ==> (received matches Some(DomainEvent::MessageReceived(m))
            && is_generated_local_id(m.local_id@, counter) && is_message_from(event, m)),
{
    if event_target(&event).is_none() {
        return None;
    }
    let local_id = LocalMessageId::generated(counter);
    message_event_with_local_id(event, local_id)
}

/// The domain events of a protocol event: for a message, the update of its
/// conversation and then the message, whose local id is generated with
/// `counter`; nothing for any other event.
pub fn events_from_message(event: EventEnvelope, counter: u64) -> (events: Vec<DomainEvent>)
    requires
        time_fits(event),
    ensures
        event_conversation(event) is None ==> events.len() == 0,
        event_conversation(event) is Some ==> {
            &&& events.len() == 2
            &&& events[0] matches DomainEvent::ConversationUpdated(c) && c@ == conversation_from_event(event)
            &&& events[1] matches DomainEvent::MessageReceived(m) && is_generated_local_id(
                m.local_id@,
                counter,
            ) && is_message_from(event, m)
        },
{
    let mut events: Vec<DomainEvent> = Vec::new();
    match conversation_event_from_message(&event) {
        Some(update) => events.push(update),
        None => {},
    }
    match message_event_from_message(event, counter) {
        Some(received) => events.push(received),
        None => {},
    }
    events
}

/// Whom an action is for, as plain values.
pub enum TargetModel {
    Id(i64),
    Name(Seq<char>),
}

/// An action target as plain values.
pub open spec fn target_model(t: ActionTarget) -> TargetModel {
    match t {
        ActionTarget::Id(n) => TargetModel::Id(n),
        ActionTarget::Name(s) => TargetModel::Name(s@),
    }
}

/// Whether `s` starts with `prefix`.
pub open spec fn starts_with(s: Seq<char>, prefix: Seq<char>) -> bool {
    prefix.len() <= s.len() && s.take(prefix.len() as int) == prefix
}

/// How a reply to a conversation is sent: the action, the key of the target,
/// and the target's text. `group:<id>` goes to the group, `private:<id>` to
/// the user, any other id to the user of that id.
pub open spec fn route(id: Seq<char>) -> (Seq<char>, Seq<char>, Seq<char>) {
    if starts_with(id, "group:"@) {
        ("send_group_msg"@, "group_id"@, id.skip("group:"@.len() as int))
    } else if starts_with(id, "private:"@) {
        ("send_private_msg"@, "user_id"@, id.skip("private:"@.len() as int))
    } else {
        ("send_msg"@, "user_id"@, id)
    }
}

/// A target text as a number where it reads as an `i64`, else as text.
pub open spec fn target_from_text(t: Seq<char>) -> TargetModel {
    match parse_i64_spec(t) {
        Some(n) => TargetModel::Id(n),
        None => TargetModel::Name(t),
    }
}

/// Whether `request` sends `text` to the conversation `id`.
pub open spec fn sends_text_to(request: ActionRequest, id: Seq<char>, text: Seq<char>) -> bool {
    let r = route(id);
    &&& request.action@ == r.0
    &&& request.params.target_key@ == r.1
    &&& target_model(request.params.target) == target_from_text(r.2)
    &&& request.params.text@ == text
}

/// The action that sends `text` to the conversation, with the given echo.
pub fn action_request(conversation_id: &ConversationId, text: &str, echo: String) -> (request: ActionRequest)
    ensures
        sends_text_to(request, conversation_id@, text@),
        request.echo == echo,
{
    let id = conversation_id.as_str();
    let (action, target_key, target_id) = match strip_prefix_text(id, "group:") {
        Some(group_id) => ("send_group_msg", "group_id", group_id),
        None => match strip_prefix_text(id, "private:") {
            Some(user_id) => ("send_private_msg", "user_id", user_id),
            None => ("send_msg", "user_id", id),
        },
    };
    let target = match parse_i64(target_id) {
        Some(n) => ActionTarget::Id(n),
        None => ActionTarget::Name(String::from_str(target_id)),
    };
    ActionRequest {
        action: String::from_str(action),
        params: ActionParams { text: String::from_str(text), target_key: String::from_str(target_key), target },
        echo,
    }
}

/// The action that sends `text` to the conversation, with a random echo.
pub fn text_message_action(conversation_id: &ConversationId, text: &str) -> (request: ActionRequest)
    ensures
        sends_text_to(request, conversation_id@, text@),
        is_uuid_v4_text(request.echo@),
{
    action_request(conversation_id, text, random_uuid_text())
}

/// Law: a reply goes back where the message came from. The conversation that
/// a message event names routes a reply to the same group, or to the same
/// user, by its numeric id.
pub proof fn lemma_reply_routes_back(e: EventEnvelope)
    requires
        event_conversation(e) is Some,
    ensures
        ({
            let id = event_conversation(e).unwrap().0;
            let kind = event_conversation(e).unwrap().1;
            if kind == ConversationKind::Group {
                &&& route(id).0 == "send_group_msg"@
                &&& route(id).1 == "group_id"@
                &&& target_from_text(route(id).2) == TargetModel::Id(e.group_id.unwrap())
            } else {
                &&& route(id).0 == "send_private_msg"@
                &&& route(id).1 == "user_id"@
                &&& target_from_text(route(id).2) == TargetModel::Id(e.user_id.unwrap())
            }
        }),
{
    reveal_strlit("group:");
    reveal_strlit("private:");
    reveal_strlit("group");
    reveal_strlit("private");
    let t = event_conversation(e).unwrap();
    if t.1 == ConversationKind::Group {
        let g = e.group_id.unwrap();
        let digits = decimal_text(g as int);
        assert(t.0 == "group:"@ + digits);
        assert(t.0.take(6) =~= "group:"@);
        assert(t.0.skip(6) =~= digits);
        crate::text::lemma_parse_decimal_text(g);
    } else {
        let u = e.user_id.unwrap();
        let digits = decimal_text(u as int);
        assert(t.0 == "private:"@ + digits);
        assert(t.0[0] == 'p');
        assert(!starts_with(t.0, "group:"@)) by {
            if starts_with(t.0, "group:"@) {
                assert(t.0.take(6)[0] == 'g');
            }
        }
        assert(t.0.take(8) =~= "private:"@);
        assert(t.0.skip(8) =~= digits);
        crate::text::lemma_parse_decimal_text(u);
    }
}

/// Law: the events of a message, applied in the order `events_from_message`
/// gives them, list its conversation with the message's text as preview and
/// the message's time, and put the message in that conversation's timeline.
pub proof fn lemma_message_events_reach_the_state(s: ClientModel, e: EventEnvelope, c: Conversation, m: Message)
    requires
        time_fits(e),
        event_conversation(e) is Some,
        c@ == conversation_from_event(e),
        is_message_from(e, m),
    ensures
        ({
            let after = apply_spec(
                apply_spec(s, DomainEvent::ConversationUpdated(c)),
                DomainEvent::MessageReceived(m),
            );
            &&& conversation_of(after, c@.id) == Some(
                ConversationModel { last_message_preview: Some(nodes_text(m.nodes@)), ..c@ },
            )
            &&& timeline_of(after, c@.id).contains(m)
        }),
{
    let mid = apply_spec(s, DomainEvent::ConversationUpdated(c));
    let p = has_id(c@.id);
    match first_index(s.conversations, p) {
        Some(i) => {
            lemma_first_index_update(s.conversations, p, i, c@);
        },
        None => {
            lemma_first_index_push(s.conversations, p, c@);
        },
    }
    let i = first_index(mid.conversations, p).unwrap();
    let touched = ConversationModel {
        last_message_preview: Some(nodes_text(m.nodes@)),
        updated_at_ms: if mid.conversations[i].updated_at_ms >= m.sent_at_ms {
            mid.conversations[i].updated_at_ms
        } else {
            m.sent_at_ms
        },
        ..mid.conversations[i]
    };
    lemma_first_index_update(mid.conversations, p, i, touched);
    lemma_message_received(mid, m);
}

} // verus!
