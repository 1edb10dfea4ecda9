//! What happens to the client: connection changes, conversations, messages.
use vstd::prelude::*;
use crate::conversation::Conversation;
use crate::id::LocalMessageId;
use crate::message::{Message, SendState};

verus! {

/// The state of the connection to the chat server.
#[derive(Debug)]
pub enum ConnectionState {
    Disconnected,
    Connecting,
    Connected,
    Reconnecting,
    Failed { reason: String },
}

impl Clone for ConnectionState {
    fn clone(&self) -> (res: Self)
        ensures
            res == *self,
    {
        match self {
            ConnectionState::Disconnected => ConnectionState::Disconnected,
            ConnectionState::Connecting => ConnectionState::Connecting,
            ConnectionState::Connected => ConnectionState::Connected,
            ConnectionState::Reconnecting => ConnectionState::Reconnecting,
            ConnectionState::Failed { reason } => ConnectionState::Failed { reason: reason.clone() },
        }
    }
}

impl PartialEq for ConnectionState {
    fn eq(&self, other: &Self) -> (res: bool) {
        match self {
            ConnectionState::Disconnected => matches!(other, ConnectionState::Disconnected),
            ConnectionState::Connecting => matches!(other, ConnectionState::Connecting),
            ConnectionState::Connected => matches!(other, ConnectionState::Connected),
            ConnectionState::Reconnecting => matches!(other, ConnectionState::Reconnecting),
            ConnectionState::Failed { reason: a } => match other {
                ConnectionState::Failed { reason: b } => *a == *b,
                _ => false,
            },
        }
    }
}

impl vstd::std_specs::cmp::PartialEqSpecImpl for ConnectionState {
    open spec fn obeys_eq_spec() -> bool {
        true
    }

    open spec fn eq_spec(&self, other: &Self) -> bool {
        match (*self, *other) {
            (ConnectionState::Disconnected, ConnectionState::Disconnected) => true,
            (ConnectionState::Connecting, ConnectionState::Connecting) => true,
            (ConnectionState::Connected, ConnectionState::Connected) => true,
            (ConnectionState::Reconnecting, ConnectionState::Reconnecting) => true,
            (ConnectionState::Failed { reason: a }, ConnectionState::Failed { reason: b }) => a@ == b@,
            _ => false,
        }
    }
}

impl Eq for ConnectionState {
}

/// An event that the client state is folded over.
#[derive(Clone, Debug)]
pub enum DomainEvent {
    ConnectionChanged(ConnectionState),
    ConversationUpdated(Conversation),
    MessageReceived(Message),
    MessageSendStateChanged { local_id: LocalMessageId, state: SendState },
    StoreSynced,
}

} // verus!
