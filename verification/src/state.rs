//! The client state: the connection, the conversations and their timelines,
//! and how each domain event changes them.
use vstd::prelude::*;
use crate::conversation::{Conversation, ConversationModel};
use crate::event::{ConnectionState, DomainEvent};
use crate::id::{ConversationId, LocalMessageId, RemoteMessageId};
use crate::message::{Message, SendState, clone_nodes, nodes_text};
use crate::sort::{
    distinct_by, is_sorted_by, lemma_sorted_insert_at, lemma_stable_sort_contains, lemma_stable_sort_distinct,
    lemma_stable_sort_len, lemma_stable_sort_permutes, lemma_stable_sort_sorted, stable_sort,
};
use crate::text::clone_opt_text;
use crate::view::{ConversationView, MessageView, TimelineView, message_view_model};

verus! {

/// The first index of `s` whose element satisfies `p`, if any does.
pub open spec fn first_index<T>(s: Seq<T>, p: spec_fn(T) -> bool) -> Option<int> {
    if exists|i: int| 0 <= i < s.len() && p(s[i]) && forall|j: int| 0 <= j < i ==> !p(s[j]) {
        Some(choose|i: int| 0 <= i < s.len() && p(s[i]) && forall|j: int| 0 <= j < i ==> !p(s[j]))
    } else {
        None
    }
}

/// Finding the first match: an index whose element matches, after none that
/// does, is the first index.
pub proof fn lemma_first_index_found<T>(s: Seq<T>, p: spec_fn(T) -> bool, i: int)
    requires
        0 <= i < s.len(),
        p(s[i]),
        forall|j: int| 0 <= j < i ==> !p(s[j]),
    ensures
        first_index(s, p) == Some(i),
{
    let c = choose|c: int| 0 <= c < s.len() && p(s[c]) && forall|j: int| 0 <= j < c ==> !p(s[j]);
    assert(c == i) by {
        if c < i {
            assert(!p(s[c]));
        } else if c > i {
            assert(!p(s[i]));
        }
    }
}

/// Finding no match: no element matches, so there is no first index.
pub proof fn lemma_first_index_none<T>(s: Seq<T>, p: spec_fn(T) -> bool)
    requires
        forall|j: int| 0 <= j < s.len() ==> !p(s[j]),
    ensures
        first_index(s, p) is None,
{
}

/// Where an element matches, some element is the first to match.
pub proof fn lemma_first_index_exists<T>(s: Seq<T>, p: spec_fn(T) -> bool, i: int)
    requires
        0 <= i < s.len(),
        p(s[i]),
    ensures
        first_index(s, p) is Some,
        p(s[first_index(s, p).unwrap()]),
        0 <= first_index(s, p).unwrap() < s.len(),
    decreases i,
{
    if exists|j: int| 0 <= j < i && p(s[j]) {
        let j = choose|j: int| 0 <= j < i && p(s[j]);
        lemma_first_index_exists(s, p, j);
    } else {
        lemma_first_index_found(s, p, i);
    }
}

/// Replacing the first match by another match keeps it the first match.
pub proof fn lemma_first_index_update<T>(s: Seq<T>, p: spec_fn(T) -> bool, i: int, x: T)
    requires
        first_index(s, p) == Some(i),
        p(x),
    ensures
        first_index(s.update(i, x), p) == Some(i),
{
    lemma_first_index_found(s.update(i, x), p, i);
}

/// Where nothing matches, a matching element added at the end is the first
/// match.
pub proof fn lemma_first_index_push<T>(s: Seq<T>, p: spec_fn(T) -> bool, x: T)
    requires
        first_index(s, p) is None,
        p(x),
    ensures
        first_index(s.push(x), p) == Some(s.len() as int),
        forall|j: int| 0 <= j < s.len() ==> !p(#[trigger] s[j]),
{
    assert forall|j: int| 0 <= j < s.len() implies !p(#[trigger] s[j]) by {
        if p(s[j]) {
            lemma_first_index_exists(s, p, j);
        }
    }
    lemma_first_index_found(s.push(x), p, s.len() as int);
}

/// Changing an element that does not match into one that does not match
/// leaves the first match where it was.
pub proof fn lemma_first_index_update_other<T>(s: Seq<T>, p: spec_fn(T) -> bool, i: int, x: T)
    requires
        0 <= i < s.len(),
        !p(s[i]),
        !p(x),
    ensures
        first_index(s.update(i, x), p) == first_index(s, p),
{
    let t = s.update(i, x);
    match first_index(s, p) {
        Some(k) => {
            lemma_first_index_found(t, p, k);
        },
        None => {
            assert forall|j: int| 0 <= j < t.len() implies !p(#[trigger] t[j]) by {
                if p(s[j]) {
                    lemma_first_index_exists(s, p, j);
                }
            }
        },
    }
}

/// Adding an element that does not match leaves the first match where it
/// was.
pub proof fn lemma_first_index_push_other<T>(s: Seq<T>, p: spec_fn(T) -> bool, x: T)
    requires
        !p(x),
    ensures
        first_index(s.push(x), p) == first_index(s, p),
{
    let t = s.push(x);
    match first_index(s, p) {
        Some(k) => {
            lemma_first_index_found(t, p, k);
        },
        None => {
            assert forall|j: int| 0 <= j < t.len() implies !p(#[trigger] t[j]) by {
                if j < s.len() && p(s[j]) {
                    lemma_first_index_exists(s, p, j);
                }
            }
        },
    }
}

/// The key that orders a timeline: the time a message was sent.
pub open spec fn by_sent_time() -> spec_fn(Message) -> int {
    |m: Message| m.sent_at_ms as int
}

/// The key that orders the conversation list: the newest first.
pub open spec fn newest_first() -> spec_fn(ConversationModel) -> int {
    |c: ConversationModel| -(c.updated_at_ms as int)
}

/// The messages of one conversation.
#[derive(Clone, Debug)]
struct Timeline {
    conversation_id: ConversationId,
    messages: Vec<Message>,
}

/// The conversations and the messages of each conversation: one conversation
/// per id, one timeline per conversation, one message per local id in a
/// timeline.
#[derive(Debug)]
struct Chats {
    conversations: Vec<Conversation>,
    timelines: Vec<Timeline>,
}

impl Chats {
    #[verifier::type_invariant]
    spec fn well_formed(self) -> bool {
        lists_wf(conversation_models(self.conversations@), timeline_models(self.timelines@))
    }
}

/// What the client knows: the connection state, the conversations, and the
/// messages of each conversation.
#[derive(Debug)]
pub struct ClientState {
    pub connection: ConnectionState,
    chats: Chats,
}

/// The client state as plain values: the conversations in the order they were
/// first seen, and for each conversation that has messages, its id and its
/// messages.
#[verifier::ext_equal]
pub struct ClientModel {
    pub connection: ConnectionState,
    pub conversations: Seq<ConversationModel>,
    pub timelines: Seq<(Seq<char>, Seq<Message>)>,
}

impl View for ClientState {
    type V = ClientModel;

    closed spec fn view(&self) -> ClientModel {
        ClientModel {
            connection: self.connection,
            conversations: conversation_models(self.chats.conversations@),
            timelines: timeline_models(self.chats.timelines@),
        }
    }
}

/// The conversations as plain values.
pub open spec fn conversation_models(cs: Seq<Conversation>) -> Seq<ConversationModel> {
    cs.map_values(|c: Conversation| c@)
}

spec fn timeline_models(ts: Seq<Timeline>) -> Seq<(Seq<char>, Seq<Message>)> {
    ts.map_values(|t: Timeline| (t.conversation_id@, t.messages@))
}

spec fn as_index(r: Option<usize>) -> Option<int> {
    match r {
        Some(i) => Some(i as int),
        None => None,
    }
}

/// Whether a conversation has the given id.
pub open spec fn has_id(id: Seq<char>) -> spec_fn(ConversationModel) -> bool {
    |c: ConversationModel| c.id == id
}

/// Whether a timeline belongs to the given conversation.
pub open spec fn belongs_to(id: Seq<char>) -> spec_fn((Seq<char>, Seq<Message>)) -> bool {
    |t: (Seq<char>, Seq<Message>)| t.0 == id
}

/// Whether a message has the given local id.
pub open spec fn has_local_id(id: Seq<char>) -> spec_fn(Message) -> bool {
    |m: Message| m.local_id@ == id
}

/// Whether a timeline holds a message with the given local id.
pub open spec fn holds_local_id(id: Seq<char>) -> spec_fn((Seq<char>, Seq<Message>)) -> bool {
    |t: (Seq<char>, Seq<Message>)| first_index(t.1, has_local_id(id)) is Some
}

/// The conversation with the given id, if the state has one.
pub open spec fn conversation_of(s: ClientModel, id: Seq<char>) -> Option<ConversationModel> {
    match first_index(s.conversations, has_id(id)) {
        Some(i) => Some(s.conversations[i]),
        None => None,
    }
}

/// The messages of the given conversation, in timeline order.
pub open spec fn timeline_of(s: ClientModel, id: Seq<char>) -> Seq<Message> {
    match first_index(s.timelines, belongs_to(id)) {
        Some(b) => s.timelines[b].1,
        None => Seq::empty(),
    }
}

/// The conversations after `c` is stored: it replaces the conversation with
/// its id, or is added at the end.
pub open spec fn upsert_conversation(cs: Seq<ConversationModel>, c: ConversationModel) -> Seq<ConversationModel> {
    match first_index(cs, has_id(c.id)) {
        Some(i) => cs.update(i, c),
        None => cs.push(c),
    }
}

/// The conversations after message `m` arrived: the conversation it belongs
/// to, if known, shows the message's text as preview, and its time moves up to
/// the message's if that is later.
pub open spec fn touch_conversation(cs: Seq<ConversationModel>, m: Message) -> Seq<ConversationModel> {
    match first_index(cs, has_id(m.conversation_id@)) {
        Some(i) => cs.update(
            i,
            ConversationModel {
                last_message_preview: Some(nodes_text(m.nodes@)),
                updated_at_ms: if cs[i].updated_at_ms >= m.sent_at_ms {
                    cs[i].updated_at_ms
                } else {
                    m.sent_at_ms
                },
                ..cs[i]
            },
        ),
        None => cs,
    }
}

/// A timeline after message `m` arrived: a message with the same local id is
/// replaced where it stands; otherwise `m` is added and the timeline is sorted
/// by sent time, stably.
pub open spec fn add_message(ms: Seq<Message>, m: Message) -> Seq<Message> {
    match first_index(ms, has_local_id(m.local_id@)) {
        Some(j) => ms.update(j, m),
        None => stable_sort(ms.push(m), by_sent_time()),
    }
}

/// The timelines after message `m` arrived: `m` goes into its conversation's
/// timeline, which is created if there is none.
pub open spec fn receive_message(ts: Seq<(Seq<char>, Seq<Message>)>, m: Message) -> Seq<(Seq<char>, Seq<Message>)> {
    match first_index(ts, belongs_to(m.conversation_id@)) {
        Some(b) => ts.update(b, (ts[b].0, add_message(ts[b].1, m))),
        None => ts.push((m.conversation_id@, seq![m])),
    }
}

/// The timelines after a send-state change: the first message with that local
/// id, in the first timeline that has one, takes the new state.
pub open spec fn set_send_state(
    ts: Seq<(Seq<char>, Seq<Message>)>,
    local_id: Seq<char>,
    state: SendState,
) -> Seq<(Seq<char>, Seq<Message>)> {
    match first_index(ts, holds_local_id(local_id)) {
        Some(b) => {
            let j = first_index(ts[b].1, has_local_id(local_id)).unwrap();
            ts.update(b, (ts[b].0, ts[b].1.update(j, Message { send_state: state, ..ts[b].1[j] })))
        },
        None => ts,
    }
}

/// The state after an event.
pub open spec fn apply_spec(s: ClientModel, event: DomainEvent) -> ClientModel {
    match event {
        DomainEvent::ConnectionChanged(connection) => ClientModel { connection, ..s },
        DomainEvent::ConversationUpdated(c) => ClientModel {
            conversations: upsert_conversation(s.conversations, c@),
            ..s
        },
        DomainEvent::MessageReceived(m) => ClientModel {
            conversations: touch_conversation(s.conversations, m),
            timelines: receive_message(s.timelines, m),
            ..s
        },
        DomainEvent::MessageSendStateChanged { local_id, state } => ClientModel {
            timelines: set_send_state(s.timelines, local_id@, state),
            ..s
        },
        DomainEvent::StoreSynced => s,
    }
}

/// A conversation's id.
pub open spec fn conversation_key() -> spec_fn(ConversationModel) -> Seq<char> {
    |c: ConversationModel| c.id
}

/// The conversation a timeline belongs to.
pub open spec fn timeline_key() -> spec_fn((Seq<char>, Seq<Message>)) -> Seq<char> {
    |t: (Seq<char>, Seq<Message>)| t.0
}

/// A message's local id.
pub open spec fn local_key() -> spec_fn(Message) -> Seq<char> {
    |m: Message| m.local_id@
}

/// One conversation per id, one timeline per conversation, and one message
/// per local id within a timeline.
pub open spec fn lists_wf(conversations: Seq<ConversationModel>, timelines: Seq<(Seq<char>, Seq<Message>)>) -> bool {
    &&& distinct_by(conversations, conversation_key())
    &&& distinct_by(timelines, timeline_key())
    &&& forall|b: int| 0 <= b < timelines.len() ==> distinct_by(#[trigger] timelines[b].1, local_key())
}

/// What the state keeps true: one conversation per id, one timeline per
/// conversation, and one message per local id within a timeline.
pub open spec fn model_wf(s: ClientModel) -> bool {
    lists_wf(s.conversations, s.timelines)
}

proof fn lemma_update_distinct<T, A>(s: Seq<T>, i: int, x: T, proj: spec_fn(T) -> A)
    requires
        distinct_by(s, proj),
        0 <= i < s.len(),
        proj(x) == proj(s[i]),
    ensures
        distinct_by(s.update(i, x), proj),
{
    let t = s.update(i, x);
    assert forall|a: int, b: int| 0 <= a < b < t.len() implies proj(#[trigger] t[a]) != proj(#[trigger] t[b]) by {
        assert(proj(t[a]) == proj(s[a]) && proj(t[b]) == proj(s[b]));
    }
}

proof fn lemma_push_distinct<T, A>(s: Seq<T>, x: T, proj: spec_fn(T) -> A)
    requires
        distinct_by(s, proj),
        forall|j: int| 0 <= j < s.len() ==> proj(#[trigger] s[j]) != proj(x),
    ensures
        distinct_by(s.push(x), proj),
{
    let t = s.push(x);
    assert forall|a: int, b: int| 0 <= a < b < t.len() implies proj(#[trigger] t[a]) != proj(#[trigger] t[b]) by {
        assert(t[a] == s[a]);
        if b < s.len() {
            assert(t[b] == s[b]);
        }
    }
}

/// Law: every event keeps the state well formed: ids of conversations,
/// conversations of timelines, and local ids within a timeline stay distinct.
pub proof fn lemma_apply_preserves_wf(s: ClientModel, event: DomainEvent)
    requires
        model_wf(s),
    ensures
        model_wf(apply_spec(s, event)),
{
    let r = apply_spec(s, event);
    match event {
        DomainEvent::ConnectionChanged(_) => {},
        DomainEvent::ConversationUpdated(c) => {
            let p = has_id(c@.id);
            match first_index(s.conversations, p) {
                Some(i) => {
                    lemma_update_distinct(s.conversations, i, c@, conversation_key());
                },
                None => {
                    lemma_first_index_push(s.conversations, p, c@);
                    lemma_push_distinct(s.conversations, c@, conversation_key());
                },
            }
        },
        DomainEvent::MessageReceived(m) => {
            let cs = s.conversations;
            match first_index(cs, has_id(m.conversation_id@)) {
                Some(i) => {
                    let t = touch_conversation(cs, m);
                    lemma_update_distinct(cs, i, t[i], conversation_key());
                },
                None => {},
            }
            let ts = s.timelines;
            let pt = belongs_to(m.conversation_id@);
            match first_index(ts, pt) {
                Some(b) => {
                    let ms = ts[b].1;
                    let pl = has_local_id(m.local_id@);
                    match first_index(ms, pl) {
                        Some(j) => {
                            lemma_update_distinct(ms, j, m, local_key());
                        },
                        None => {
                            lemma_first_index_push(ms, pl, m);
                            lemma_push_distinct(ms, m, local_key());
                            lemma_stable_sort_distinct(ms.push(m), by_sent_time(), local_key());
                        },
                    }
                    let added = (ts[b].0, add_message(ms, m));
                    lemma_update_distinct(ts, b, added, timeline_key());
                    assert forall|k: int| 0 <= k < r.timelines.len() implies distinct_by(
                        #[trigger] r.timelines[k].1,
                        local_key(),
                    ) by {
                        if k != b {
                            assert(r.timelines[k] == ts[k]);
                        }
                    }
                },
                None => {
                    let created = (m.conversation_id@, seq![m]);
                    lemma_first_index_push(ts, pt, created);
                    lemma_push_distinct(ts, created, timeline_key());
                    assert forall|k: int| 0 <= k < r.timelines.len() implies distinct_by(
                        #[trigger] r.timelines[k].1,
                        local_key(),
                    ) by {
                        if k < ts.len() {
                            assert(r.timelines[k] == ts[k]);
                        }
                    }
                },
            }
        },
        DomainEvent::MessageSendStateChanged { local_id, state } => {
            let ts = s.timelines;
            let ph = holds_local_id(local_id@);
            let pl = has_local_id(local_id@);
            match first_index(ts, ph) {
                Some(b) => {
                    let ms = ts[b].1;
                    let j = first_index(ms, pl).unwrap();
                    lemma_first_index_exists(ms, pl, choose|i: int|
                        0 <= i < ms.len() && pl(ms[i]) && forall|k: int| 0 <= k < i ==> !pl(ms[k]));
                    let changed = Message { send_state: state, ..ms[j] };
                    lemma_update_distinct(ms, j, changed, local_key());
                    let ms1 = ms.update(j, changed);
                    lemma_update_distinct(ts, b, (ts[b].0, ms1), timeline_key());
                    assert forall|k: int| 0 <= k < r.timelines.len() implies distinct_by(
                        #[trigger] r.timelines[k].1,
                        local_key(),
                    ) by {
                        if k != b {
                            assert(r.timelines[k] == ts[k]);
                        }
                    }
                },
                None => {},
            }
        },
        DomainEvent::StoreSynced => {},
    }
}

proof fn lemma_add_message_twice(ms: Seq<Message>, m: Message)
    ensures
        add_message(add_message(ms, m), m) == add_message(ms, m),
{
    let p = has_local_id(m.local_id@);
    match first_index(ms, p) {
        Some(j) => {
            lemma_first_index_update(ms, p, j, m);
            assert(ms.update(j, m).update(j, m) =~= ms.update(j, m));
        },
        None => {
            let pushed = ms.push(m);
            let sorted = stable_sort(pushed, by_sent_time());
            assert(pushed[ms.len() as int] == m);
            assert(pushed.contains(m));
            lemma_stable_sort_contains(pushed, by_sent_time(), m);
            let q = choose|q: int| 0 <= q < sorted.len() && sorted[q] == m;
            lemma_first_index_exists(sorted, p, q);
            let f = first_index(sorted, p).unwrap();
            assert(sorted.contains(sorted[f]));
            lemma_stable_sort_contains(pushed, by_sent_time(), sorted[f]);
            let k = choose|k: int| 0 <= k < pushed.len() && pushed[k] == sorted[f];
            if k < ms.len() {
                assert(pushed[k] == ms[k]);
                lemma_first_index_exists(ms, p, k);
            }
            assert(sorted.update(f, m) =~= sorted);
        },
    }
}

/// Law: every event is idempotent; the state after an event delivered twice
/// is the state after it was delivered once. Redelivered messages, repeated
/// conversation updates and repeated state changes change nothing more.
pub proof fn lemma_apply_idempotent(s: ClientModel, event: DomainEvent)
    ensures
        apply_spec(apply_spec(s, event), event) == apply_spec(s, event),
{
    match event {
        DomainEvent::ConnectionChanged(_) => {},
        DomainEvent::ConversationUpdated(c) => {
            let p = has_id(c@.id);
            match first_index(s.conversations, p) {
                Some(i) => {
                    lemma_first_index_update(s.conversations, p, i, c@);
                    assert(s.conversations.update(i, c@).update(i, c@) =~= s.conversations.update(i, c@));
                },
                None => {
                    lemma_first_index_push(s.conversations, p, c@);
                    assert(s.conversations.push(c@).update(s.conversations.len() as int, c@)
                        =~= s.conversations.push(c@));
                },
            }
        },
        DomainEvent::MessageReceived(m) => {
            let cs = s.conversations;
            let pc = has_id(m.conversation_id@);
            match first_index(cs, pc) {
                Some(i) => {
                    let t = touch_conversation(cs, m);
                    lemma_first_index_update(cs, pc, i, t[i]);
                    assert(touch_conversation(t, m) =~= t);
                },
                None => {},
            }
            let ts = s.timelines;
            let pt = belongs_to(m.conversation_id@);
            match first_index(ts, pt) {
                Some(b) => {
                    let added = (ts[b].0, add_message(ts[b].1, m));
                    lemma_first_index_update(ts, pt, b, added);
                    lemma_add_message_twice(ts[b].1, m);
                    assert(ts.update(b, added).update(b, (added.0, add_message(added.1, m))) =~= ts.update(
                        b,
                        added,
                    ));
                },
                None => {
                    let created = (m.conversation_id@, seq![m]);
                    lemma_first_index_push(ts, pt, created);
                    let pushed = ts.push(created);
                    lemma_first_index_found(seq![m], has_local_id(m.local_id@), 0);
                    assert(seq![m].update(0, m) =~= seq![m]);
                    assert(pushed.update(ts.len() as int, (created.0, add_message(created.1, m))) =~= pushed);
                },
            }
        },
        DomainEvent::MessageSendStateChanged { local_id, state } => {
            let ts = s.timelines;
            let ph = holds_local_id(local_id@);
            let pl = has_local_id(local_id@);
            match first_index(ts, ph) {
                Some(b) => {
                    let ms = ts[b].1;
                    let j = first_index(ms, pl).unwrap();
                    let changed = Message { send_state: state, ..ms[j] };
                    let ms1 = ms.update(j, changed);
                    lemma_first_index_exists(ms, pl, choose|i: int|
                        0 <= i < ms.len() && pl(ms[i]) && forall|k: int| 0 <= k < i ==> !pl(ms[k]));
                    lemma_first_index_update(ms, pl, j, changed);
                    lemma_first_index_update(ts, ph, b, (ts[b].0, ms1));
                    assert(ms1.update(j, Message { send_state: state, ..ms1[j] }) =~= ms1);
                    let ts1 = ts.update(b, (ts[b].0, ms1));
                    assert(ts1.update(b, (ts1[b].0, ms1)) =~= ts1);
                },
                None => {},
            }
        },
        DomainEvent::StoreSynced => {},
    }
}

/// Law: what is written is read back. After a conversation update, the state
/// holds that conversation under its id, and every other id still names what
/// it named before.
pub proof fn lemma_conversation_read_after_update(s: ClientModel, c: Conversation, other: Seq<char>)
    requires
        other != c@.id,
    ensures
        conversation_of(apply_spec(s, DomainEvent::ConversationUpdated(c)), c@.id) == Some(c@),
        conversation_of(apply_spec(s, DomainEvent::ConversationUpdated(c)), other) == conversation_of(s, other),
        timeline_of(apply_spec(s, DomainEvent::ConversationUpdated(c)), other) == timeline_of(s, other),
{
    let cs = s.conversations;
    let p = has_id(c@.id);
    let q = has_id(other);
    match first_index(cs, p) {
        Some(i) => {
            lemma_first_index_update(cs, p, i, c@);
            lemma_first_index_update_other(cs, q, i, c@);
        },
        None => {
            lemma_first_index_push(cs, p, c@);
            lemma_first_index_push_other(cs, q, c@);
        },
    }
}

/// Law: a received message is in its conversation's timeline afterwards, and
/// a message new to that timeline leaves it ordered by sent time, messages of
/// equal time in arrival order.
pub proof fn lemma_message_received(s: ClientModel, m: Message)
    ensures
        timeline_of(apply_spec(s, DomainEvent::MessageReceived(m)), m.conversation_id@).contains(m),
        first_index(timeline_of(s, m.conversation_id@), has_local_id(m.local_id@)) is None ==> {
            &&& timeline_of(apply_spec(s, DomainEvent::MessageReceived(m)), m.conversation_id@) == stable_sort(
                timeline_of(s, m.conversation_id@).push(m),
                by_sent_time(),
            )
            &&& is_sorted_by(
                timeline_of(apply_spec(s, DomainEvent::MessageReceived(m)), m.conversation_id@),
                by_sent_time(),
            )
        },
{
    let ts = s.timelines;
    let pt = belongs_to(m.conversation_id@);
    let ms = timeline_of(s, m.conversation_id@);
    match first_index(ts, pt) {
        Some(b) => {
            let added = (ts[b].0, add_message(ts[b].1, m));
            lemma_first_index_update(ts, pt, b, added);
            match first_index(ms, has_local_id(m.local_id@)) {
                Some(j) => {
                    assert(ms.update(j, m)[j] == m);
                },
                None => {
                    assert(ms.push(m)[ms.len() as int] == m);
                    lemma_stable_sort_contains(ms.push(m), by_sent_time(), m);
                    lemma_stable_sort_sorted(ms.push(m), by_sent_time());
                },
            }
        },
        None => {
            let created = (m.conversation_id@, seq![m]);
            lemma_first_index_push(ts, pt, created);
            assert(seq![m][0] == m);
            assert(Seq::<Message>::empty().push(m) =~= seq![m]);
            reveal_with_fuel(stable_sort, 2);
            assert(stable_sort(seq![m], by_sent_time()) =~= seq![m]);
        },
    }
}

/// Law: a message stays in its timeline when another message, with another
/// local id, arrives; two messages with different local ids (such as two ids
/// generated with different counter values) are both kept.
pub proof fn lemma_other_message_kept(s: ClientModel, m: Message, other: Message)
    requires
        other.local_id@ != m.local_id@,
        timeline_of(s, other.conversation_id@).contains(other),
    ensures
        timeline_of(apply_spec(s, DomainEvent::MessageReceived(m)), other.conversation_id@).contains(other),
{
    let ts = s.timelines;
    let id = other.conversation_id@;
    let after = apply_spec(s, DomainEvent::MessageReceived(m));
    let pt = belongs_to(m.conversation_id@);
    let po = belongs_to(id);
    let b = first_index(ts, po).unwrap();
    let ms = ts[b].1;
    match first_index(ts, pt) {
        Some(c) => {
            let added = (ts[c].0, add_message(ts[c].1, m));
            if c == b {
                lemma_first_index_update(ts, po, b, added);
                let pl = has_local_id(m.local_id@);
                let q = choose|q: int| 0 <= q < ms.len() && ms[q] == other;
                match first_index(ms, pl) {
                    Some(j) => {
                        assert(ms.update(j, m)[q] == other);
                    },
                    None => {
                        assert(ms.push(m)[q] == other);
                        lemma_stable_sort_contains(ms.push(m), by_sent_time(), other);
                    },
                }
            } else {
                assert(!po(added));
                lemma_first_index_update_other(ts, po, c, added);
                assert(after.timelines[b] == ts[b]);
            }
        },
        None => {
            assert(!po((m.conversation_id@, seq![m])));
            lemma_first_index_push_other(ts, po, (m.conversation_id@, seq![m]));
            assert(after.timelines[b] == ts[b]);
        },
    }
}

/// Law (read after write of a send state): the first message with the local
/// id, in the first timeline that holds one, takes the new state and keeps
/// everything else; every other message stays as it was, and so do the
/// conversations, the connection, and each timeline's conversation and length.
pub proof fn lemma_send_state_read_after_write(
    s: ClientModel,
    local_id: LocalMessageId,
    state: SendState,
    b: int,
    j: int,
)
    requires
        0 <= b < s.timelines.len(),
        0 <= j < s.timelines[b].1.len(),
        s.timelines[b].1[j].local_id@ == local_id@,
        forall|k: int| 0 <= k < j ==> (#[trigger] s.timelines[b].1[k]).local_id@ != local_id@,
        forall|c: int, k: int|
            0 <= c < b && 0 <= k < s.timelines[c].1.len() ==> (#[trigger] s.timelines[c].1[k]).local_id@
                != local_id@,
    ensures
        ({
            let r = apply_spec(s, DomainEvent::MessageSendStateChanged { local_id, state });
            &&& r.connection == s.connection
            &&& r.conversations == s.conversations
            &&& r.timelines.len() == s.timelines.len()
            &&& forall|c: int|
                0 <= c < s.timelines.len() ==> (#[trigger] r.timelines[c]).0 == s.timelines[c].0
                    && r.timelines[c].1.len() == s.timelines[c].1.len()
            &&& r.timelines[b].1[j] == Message { send_state: state, ..s.timelines[b].1[j] }
            &&& forall|c: int, k: int|
                0 <= c < s.timelines.len() && 0 <= k < s.timelines[c].1.len() && (c != b || k != j)
                    ==> (#[trigger] r.timelines[c].1[k]) == s.timelines[c].1[k]
        }),
{
    let ts = s.timelines;
    let ph = holds_local_id(local_id@);
    let pl = has_local_id(local_id@);
    assert forall|c: int| 0 <= c < b implies !ph(#[trigger] ts[c]) by {
        assert forall|k: int| 0 <= k < ts[c].1.len() implies !pl(#[trigger] ts[c].1[k]) by {}
        lemma_first_index_none(ts[c].1, pl);
    }
    lemma_first_index_found(ts[b].1, pl, j);
    lemma_first_index_found(ts, ph, b);
}

/// Law: a send-state change for a local id that no timeline holds changes
/// nothing.
pub proof fn lemma_send_state_unknown_id(s: ClientModel, local_id: LocalMessageId, state: SendState)
    requires
        forall|c: int, k: int|
            0 <= c < s.timelines.len() && 0 <= k < s.timelines[c].1.len() ==> (
            #[trigger] s.timelines[c].1[k]).local_id@ != local_id@,
    ensures
        apply_spec(s, DomainEvent::MessageSendStateChanged { local_id, state }) == s,
{
    let ts = s.timelines;
    let ph = holds_local_id(local_id@);
    let pl = has_local_id(local_id@);
    assert forall|c: int| 0 <= c < ts.len() implies !ph(#[trigger] ts[c]) by {
        assert forall|k: int| 0 <= k < ts[c].1.len() implies !pl(#[trigger] ts[c].1[k]) by {}
        lemma_first_index_none(ts[c].1, pl);
    }
    lemma_first_index_none(ts, ph);
}

/// Whether every timeline is ordered by sent time.
pub open spec fn timelines_sorted(s: ClientModel) -> bool {
    forall|b: int| 0 <= b < s.timelines.len() ==> is_sorted_by(#[trigger] s.timelines[b].1, by_sent_time())
}

proof fn lemma_update_same_time_sorted(ms: Seq<Message>, j: int, x: Message)
    requires
        is_sorted_by(ms, by_sent_time()),
        0 <= j < ms.len(),
        x.sent_at_ms == ms[j].sent_at_ms,
    ensures
        is_sorted_by(ms.update(j, x), by_sent_time()),
{
    let r = ms.update(j, x);
    assert forall|a: int, b: int| 0 <= a <= b < r.len() implies by_sent_time()(r[a]) <= by_sent_time()(r[b]) by {
        assert(by_sent_time()(ms[a]) <= by_sent_time()(ms[b]));
    }
}

/// Whether a message the event delivers again keeps the time it had: for a
/// received message, every message of its timeline with its local id was
/// sent at the same time.
pub open spec fn redelivery_keeps_time(s: ClientModel, event: DomainEvent) -> bool {
    event matches DomainEvent::MessageReceived(m) ==> forall|i: int|
        0 <= i < timeline_of(s, m.conversation_id@).len() && (#[trigger] timeline_of(
            s,
            m.conversation_id@,
        )[i]).local_id@ == m.local_id@ ==> timeline_of(s, m.conversation_id@)[i].sent_at_ms == m.sent_at_ms
}

/// Whether the conversations after are those before, each at its place and
/// none with an earlier time.
pub open spec fn times_kept(before: ClientModel, after: ClientModel) -> bool {
    &&& after.conversations.len() == before.conversations.len()
    &&& forall|i: int|
        0 <= i < before.conversations.len() ==> (#[trigger] after.conversations[i]).updated_at_ms
            >= before.conversations[i].updated_at_ms
}

/// Law: no event but a conversation update moves a conversation's time back,
/// or adds or removes a conversation.
pub proof fn lemma_apply_keeps_times(s: ClientModel, event: DomainEvent)
    ensures
        !(event is ConversationUpdated) ==> times_kept(s, apply_spec(s, event)),
{
}

/// Law: events keep every timeline ordered by sent time, as long as a
/// redelivered message keeps the time it had; and no event but a
/// conversation update moves a conversation's time back.
pub proof fn lemma_apply_keeps_order(s: ClientModel, event: DomainEvent)
    requires
        timelines_sorted(s),
        redelivery_keeps_time(s, event),
    ensures
        timelines_sorted(apply_spec(s, event)),
        !(event is ConversationUpdated) ==> times_kept(s, apply_spec(s, event)),
{
    let r = apply_spec(s, event);
    let ts = s.timelines;
    match event {
        DomainEvent::MessageReceived(m) => {
            let pt = belongs_to(m.conversation_id@);
            match first_index(ts, pt) {
                Some(b) => {
                    let ms = ts[b].1;
                    assert(is_sorted_by(ms, by_sent_time()));
                    match first_index(ms, has_local_id(m.local_id@)) {
                        Some(j) => {
                            lemma_first_index_exists(ms, has_local_id(m.local_id@), choose|i: int|
                                0 <= i < ms.len() && has_local_id(m.local_id@)(ms[i]) && forall|k: int|
                                    0 <= k < i ==> !has_local_id(m.local_id@)(ms[k]));
                            assert(ms == timeline_of(s, m.conversation_id@));
                            assert(timeline_of(s, m.conversation_id@)[j].local_id@ == m.local_id@);
                            lemma_update_same_time_sorted(ms, j, m);
                        },
                        None => {
                            lemma_stable_sort_sorted(ms.push(m), by_sent_time());
                        },
                    }
                    assert forall|c: int| 0 <= c < r.timelines.len() implies is_sorted_by(
                        #[trigger] r.timelines[c].1,
                        by_sent_time(),
                    ) by {
                        if c != b {
                            assert(r.timelines[c] == ts[c]);
                        }
                    }
                },
                None => {
                    assert forall|c: int| 0 <= c < r.timelines.len() implies is_sorted_by(
                        #[trigger] r.timelines[c].1,
                        by_sent_time(),
                    ) by {
                        if c < ts.len() {
                            assert(r.timelines[c] == ts[c]);
                        }
                    }
                },
            }
        },
        DomainEvent::MessageSendStateChanged { local_id, state } => {
            let ph = holds_local_id(local_id@);
            let pl = has_local_id(local_id@);
            match first_index(ts, ph) {
                Some(b) => {
                    let ms = ts[b].1;
                    let j = first_index(ms, pl).unwrap();
                    lemma_first_index_exists(ms, pl, choose|i: int|
                        0 <= i < ms.len() && pl(ms[i]) && forall|k: int| 0 <= k < i ==> !pl(ms[k]));
                    lemma_update_same_time_sorted(ms, j, Message { send_state: state, ..ms[j] });
                    assert forall|c: int| 0 <= c < r.timelines.len() implies is_sorted_by(
                        #[trigger] r.timelines[c].1,
                        by_sent_time(),
                    ) by {
                        if c != b {
                            assert(r.timelines[c] == ts[c]);
                        }
                    }
                },
                None => {},
            }
        },
        _ => {},
    }
}

/// Law: the conversation list is ordered newest first, and holds each
/// conversation of the state once.
pub proof fn lemma_conversation_list_order(s: ClientModel)
    ensures
        is_sorted_by(stable_sort(s.conversations, newest_first()), newest_first()),
        stable_sort(s.conversations, newest_first()).to_multiset() == s.conversations.to_multiset(),
{
    lemma_stable_sort_sorted(s.conversations, newest_first());
    lemma_stable_sort_permutes(s.conversations, newest_first());
}

fn find_conversation(cs: &Vec<Conversation>, id: &ConversationId) -> (r: Option<usize>)
    ensures
        first_index(conversation_models(cs@), has_id(id@)) == as_index(r),
        r matches Some(i) ==> i < cs.len(),
{
    let ghost models = conversation_models(cs@);
    let mut i: usize = 0;
    while i < cs.len()
        invariant
            i <= cs.len(),
            models == conversation_models(cs@),
            forall|j: int| 0 <= j < i ==> !has_id(id@)(#[trigger] models[j]),
        decreases cs.len() - i,
    {
        if cs[i].id == *id {
            proof {
                lemma_first_index_found(models, has_id(id@), i as int);
            }
            return Some(i);
        }
        i = i + 1;
    }
    proof {
        lemma_first_index_none(models, has_id(id@));
    }
    None
}

fn find_timeline(ts: &Vec<Timeline>, id: &ConversationId) -> (r: Option<usize>)
    ensures
        first_index(timeline_models(ts@), belongs_to(id@)) == as_index(r),
        r matches Some(i) ==> i < ts.len(),
{
    let ghost models = timeline_models(ts@);
    let mut i: usize = 0;
    while i < ts.len()
        invariant
            i <= ts.len(),
            models == timeline_models(ts@),
            forall|j: int| 0 <= j < i ==> !belongs_to(id@)(#[trigger] models[j]),
        decreases ts.len() - i,
    {
        if ts[i].conversation_id == *id {
            proof {
                lemma_first_index_found(models, belongs_to(id@), i as int);
            }
            return Some(i);
        }
        i = i + 1;
    }
    proof {
        lemma_first_index_none(models, belongs_to(id@));
    }
    None
}

fn find_message(ms: &Vec<Message>, id: &LocalMessageId) -> (r: Option<usize>)
    ensures
        first_index(ms@, has_local_id(id@)) == as_index(r),
        r matches Some(i) ==> i < ms.len(),
{
    let mut i: usize = 0;
    while i < ms.len()
        invariant
            i <= ms.len(),
            forall|j: int| 0 <= j < i ==> !has_local_id(id@)(#[trigger] ms@[j]),
        decreases ms.len() - i,
    {
        if ms[i].local_id == *id {
            proof {
                lemma_first_index_found(ms@, has_local_id(id@), i as int);
            }
            return Some(i);
        }
        i = i + 1;
    }
    proof {
        lemma_first_index_none(ms@, has_local_id(id@));
    }
    None
}

/// The messages in timeline order: by sent time, stably.
fn sort_by_sent_time(messages: Vec<Message>) -> (sorted: Vec<Message>)
    ensures
        sorted@ == stable_sort(messages@, by_sent_time()),
{
    let ghost orig = messages@;
    let mut input = messages;
    let mut sorted: Vec<Message> = Vec::new();
    let ghost mut k: int = 0;
    assert(orig.take(0) =~= Seq::<Message>::empty());
    assert(orig.skip(0) =~= orig);
    while input.len() > 0
        invariant
            0 <= k <= orig.len(),
            sorted@ == stable_sort(orig.take(k), by_sent_time()),
            input@ == orig.skip(k),
        decreases input.len(),
    {
        let m = input.remove(0);
        let mut p: usize = sorted.len();
        while p > 0 && sorted[p - 1].sent_at_ms > m.sent_at_ms
            invariant
                p <= sorted.len(),
                forall|j: int| p <= j < sorted.len() ==> (#[trigger] sorted@[j]).sent_at_ms > m.sent_at_ms,
            decreases p,
        {
            p = p - 1;
        }
        proof {
            lemma_sorted_insert_at(sorted@, m, by_sent_time(), p as int);
            assert(orig.take(k + 1).drop_last() =~= orig.take(k));
            assert(orig.take(k + 1).last() == m);
            assert(input@ =~= orig.skip(k + 1));
            k = k + 1;
        }
        sorted.insert(p, m);
    }
    assert(orig.take(k) =~= orig);
    sorted
}

fn clone_remote_id(id: &Option<RemoteMessageId>) -> (res: Option<RemoteMessageId>)
    ensures
        res == *id,
{
    match id {
        Some(r) => Some(r.clone()),
        None => None,
    }
}

fn view_of_message(m: &Message) -> (v: MessageView)
    ensures
        v@ == message_view_model(*m),
{
    MessageView {
        local_id: m.local_id.clone(),
        remote_id: clone_remote_id(&m.remote_id),
        conversation_id: m.conversation_id.clone(),
        sender_id: m.sender_id.clone(),
        sender_name: clone_opt_text(&m.sender_name),
        direction: m.direction,
        sent_at_ms: m.sent_at_ms,
        nodes: clone_nodes(&m.nodes),
        send_state: m.send_state.clone(),
    }
}

fn view_of_conversation(c: &Conversation) -> (v: ConversationView)
    ensures
        v@ == c@,
{
    ConversationView {
        id: c.id.clone(),
        kind: c.kind,
        title: c.title.clone(),
        last_message_preview: clone_opt_text(&c.last_message_preview),
        updated_at_ms: c.updated_at_ms,
        unread_count: c.unread_count,
    }
}

impl Default for ClientState {
    /// Disconnected, with no conversations and no messages.
    fn default() -> (s: Self)
        ensures
            s@.connection == ConnectionState::Disconnected,
            s@.conversations.len() == 0,
            s@.timelines.len() == 0,
            model_wf(s@),
    {
        let chats = Chats { conversations: Vec::new(), timelines: Vec::new() };
        let s = ClientState { connection: ConnectionState::Disconnected, chats };
        assert(s@.conversations =~= Seq::<ConversationModel>::empty());
        assert(s@.timelines =~= Seq::<(Seq<char>, Seq<Message>)>::empty());
        s
    }
}

/// The conversations after `conversation` is stored.
fn store_conversation(cs: &mut Vec<Conversation>, conversation: Conversation)
    ensures
        conversation_models(final(cs)@) == upsert_conversation(conversation_models(old(cs)@), conversation@),
{
    match find_conversation(cs, &conversation.id) {
        Some(i) => {
            cs.set(i, conversation);
        },
        None => {
            cs.push(conversation);
        },
    }
    assert(conversation_models(cs@) =~= upsert_conversation(conversation_models(old(cs)@), conversation@));
}

/// The conversations and timelines after `message` arrived.
fn receive(cs: &mut Vec<Conversation>, ts: &mut Vec<Timeline>, message: Message)
    ensures
        conversation_models(final(cs)@) == touch_conversation(conversation_models(old(cs)@), message),
        timeline_models(final(ts)@) == receive_message(timeline_models(old(ts)@), message),
{
    let preview = message.preview();
    match find_conversation(cs, &message.conversation_id) {
        Some(i) => {
            cs[i].last_message_preview = Some(preview);
            if cs[i].updated_at_ms < message.sent_at_ms {
                cs[i].updated_at_ms = message.sent_at_ms;
            }
        },
        None => {},
    }
    assert(conversation_models(cs@) =~= touch_conversation(conversation_models(old(cs)@), message));
    let ghost before = timeline_models(ts@);
    match find_timeline(ts, &message.conversation_id) {
        Some(b) => {
            match find_message(&ts[b].messages, &message.local_id) {
                Some(j) => {
                    ts[b].messages.set(j, message);
                },
                None => {
                    let mut messages: Vec<Message> = Vec::new();
                    std::mem::swap(&mut messages, &mut ts[b].messages);
                    messages.push(message);
                    let sorted = sort_by_sent_time(messages);
                    ts[b].messages = sorted;
                },
            }
        },
        None => {
            let mut messages: Vec<Message> = Vec::new();
            let conversation_id = message.conversation_id.clone();
            messages.push(message);
            ts.push(Timeline { conversation_id, messages });
        },
    }
    assert(timeline_models(ts@) =~= receive_message(before, message));
}

/// The timelines after the first message with `local_id` takes `state`.
fn update_send_state(ts: &mut Vec<Timeline>, local_id: &LocalMessageId, state: SendState)
    ensures
        timeline_models(final(ts)@) == set_send_state(timeline_models(old(ts)@), local_id@, state),
{
    let ghost models = timeline_models(ts@);
    let mut b: usize = 0;
    while b < ts.len()
        invariant
            b <= ts.len(),
            ts@ == old(ts)@,
            models == timeline_models(ts@),
            forall|k: int| 0 <= k < b ==> !holds_local_id(local_id@)(#[trigger] models[k]),
        decreases ts.len() - b,
    {
        match find_message(&ts[b].messages, local_id) {
            Some(j) => {
                proof {
                    lemma_first_index_found(models, holds_local_id(local_id@), b as int);
                }
                ts[b].messages[j].send_state = state;
                assert(timeline_models(ts@) =~= set_send_state(models, local_id@, state));
                return;
            },
            None => {},
        }
        b = b + 1;
    }
    proof {
        lemma_first_index_none(models, holds_local_id(local_id@));
    }
}

impl ClientState {
    /// The state after the event. The state stays well formed; timelines stay
    /// ordered by sent time where a redelivered message keeps its time; and no
    /// event but a conversation update moves a conversation's time back.
    pub fn apply(&mut self, event: DomainEvent)
        ensures
            final(self)@ == apply_spec(old(self)@, event),
            model_wf(final(self)@),
            timelines_sorted(old(self)@) && redelivery_keeps_time(old(self)@, event) ==> timelines_sorted(
                final(self)@,
            ),
            !(event is ConversationUpdated) ==> times_kept(old(self)@, final(self)@),
    {
        proof {
            use_type_invariant(&self.chats);
            lemma_apply_preserves_wf(self@, event);
            if timelines_sorted(self@) && redelivery_keeps_time(self@, event) {
                lemma_apply_keeps_order(self@, event);
            }
        }
        let ghost before = self@;
        match event {
            DomainEvent::ConnectionChanged(connection) => {
                self.connection = connection;
            },
            DomainEvent::StoreSynced => {},
            DomainEvent::ConversationUpdated(conversation) => {
                let Chats { mut conversations, timelines } = self.take_chats();
                store_conversation(&mut conversations, conversation);
                self.chats = Chats { conversations, timelines };
            },
            DomainEvent::MessageReceived(message) => {
                let Chats { mut conversations, mut timelines } = self.take_chats();
                receive(&mut conversations, &mut timelines, message);
                self.chats = Chats { conversations, timelines };
            },
            DomainEvent::MessageSendStateChanged { local_id, state } => {
                let Chats { conversations, mut timelines } = self.take_chats();
                update_send_state(&mut timelines, &local_id, state);
                self.chats = Chats { conversations, timelines };
            },
        }
        proof {
            if !(event is ConversationUpdated) {
                lemma_apply_keeps_times(before, event);
            }
        }
    }

    /// Moves the conversations and timelines out, leaving none behind.
    fn take_chats(&mut self) -> (chats: Chats)
        ensures
            chats.conversations@ == old(self).chats.conversations@,
            chats.timelines@ == old(self).chats.timelines@,
            final(self).connection == old(self).connection,
            lists_wf(conversation_models(chats.conversations@), timeline_models(chats.timelines@)),
    {
        let mut chats = Chats { conversations: Vec::new(), timelines: Vec::new() };
        proof {
            assert(conversation_models(chats.conversations@) =~= Seq::<ConversationModel>::empty());
            assert(timeline_models(chats.timelines@) =~= Seq::<(Seq<char>, Seq<Message>)>::empty());
        }
        std::mem::swap(&mut chats, &mut self.chats);
        proof {
            use_type_invariant(&chats);
        }
        chats
    }

    /// The conversations as views, newest first; conversations of equal time
    /// in the order they were first seen.
    pub fn conversation_views(&self) -> (views: Vec<ConversationView>)
        ensures
            views.len() == self@.conversations.len(),
            forall|i: int|
                0 <= i < views.len() ==> (#[trigger] views@[i])@ == stable_sort(
                    self@.conversations,
                    newest_first(),
                )[i],
            forall|i: int, j: int| 0 <= i < j < views.len() ==> (#[trigger] views@[i])@.id != (#[trigger] views@[j])@.id,
    {
        proof {
            use_type_invariant(&self.chats);
            lemma_stable_sort_distinct(self@.conversations, newest_first(), conversation_key());
        }
        let ghost all = self@.conversations;
        let mut views: Vec<ConversationView> = Vec::new();
        let ghost mut sorted: Seq<ConversationModel> = Seq::empty();
        assert(all.take(0) =~= Seq::<ConversationModel>::empty());
        for k in 0..self.chats.conversations.len()
            invariant
                all == self@.conversations,
                all.len() == self.chats.conversations.len(),
                sorted == stable_sort(all.take(k as int), newest_first()),
                views.len() == sorted.len(),
                forall|i: int| 0 <= i < views.len() ==> (#[trigger] views@[i])@ == sorted[i],
        {
            let v = view_of_conversation(&self.chats.conversations[k]);
            let mut p: usize = views.len();
            while p > 0 && views[p - 1].updated_at_ms < v.updated_at_ms
                invariant
                    p <= views.len(),
                    forall|j: int| p <= j < views.len() ==> (#[trigger] views@[j]).updated_at_ms < v.updated_at_ms,
                decreases p,
            {
                p = p - 1;
            }
            proof {
                assert(all[k as int] == self.chats.conversations@[k as int]@);
                assert forall|j: int| p <= j < sorted.len() implies newest_first()(#[trigger] sorted[j])
                    > newest_first()(v@) by {
                    assert(sorted[j] == views@[j]@);
                }
                lemma_sorted_insert_at(sorted, v@, newest_first(), p as int);
                assert(all.take(k + 1).drop_last() =~= all.take(k as int));
                assert(all.take(k + 1).last() == v@);
                sorted = sorted.insert(p as int, v@);
            }
            views.insert(p, v);
        }
        assert(all.take(all.len() as int) =~= all);
        proof {
            lemma_stable_sort_len(all, newest_first());
        }
        views
    }

    /// The messages of the conversation as views, in timeline order; none when
    /// the conversation has no timeline.
    pub fn timeline_view(&self, conversation_id: &ConversationId) -> (view: TimelineView)
        ensures
            view.conversation_id == *conversation_id,
            view.messages.len() == timeline_of(self@, conversation_id@).len(),
            forall|i: int|
                0 <= i < view.messages.len() ==> (#[trigger] view.messages@[i])@ == message_view_model(
                    timeline_of(self@, conversation_id@)[i],
                ),
            forall|i: int, j: int|
                0 <= i < j < view.messages.len() ==> (#[trigger] view.messages@[i])@.local_id != (
                #[trigger] view.messages@[j])@.local_id,
    {
        proof {
            use_type_invariant(&self.chats);
            match first_index(self@.timelines, belongs_to(conversation_id@)) {
                Some(b) => {
                    assert(distinct_by(self@.timelines[b].1, local_key()));
                },
                None => {},
            }
        }
        let mut messages: Vec<MessageView> = Vec::new();
        match find_timeline(&self.chats.timelines, conversation_id) {
            Some(b) => {
                let timeline = &self.chats.timelines[b];
                for i in 0..timeline.messages.len()
                    invariant
                        timeline == self.chats.timelines@[b as int],
                        messages.len() == i,
                        forall|j: int|
                            0 <= j < i ==> (#[trigger] messages@[j])@ == message_view_model(timeline.messages@[j]),
                {
                    messages.push(view_of_message(&timeline.messages[i]));
                }
            },
            None => {},
        }
        TimelineView { conversation_id: conversation_id.clone(), messages }
    }
}

} // verus!
