//! What the user interface asks of the client.
use vstd::prelude::*;
use crate::config::ConnectionConfig;
use crate::id::ConversationId;

verus! {

/// A request from the user interface.
#[derive(Debug)]
pub enum ClientCommand {
    Connect(ConnectionConfig),
    Disconnect,
    LoadConversations,
    LoadMessages { conversation_id: ConversationId, limit: usize },
    SendTextMessage { conversation_id: ConversationId, text: String },
}

impl Clone for ClientCommand {
    fn clone(&self) -> (res: Self)
        ensures
            res == *self,
    {
        match self {
            ClientCommand::Connect(config) => ClientCommand::Connect(config.clone()),
            ClientCommand::Disconnect => ClientCommand::Disconnect,
            ClientCommand::LoadConversations => ClientCommand::LoadConversations,
            ClientCommand::LoadMessages { conversation_id, limit } => ClientCommand::LoadMessages {
                conversation_id: conversation_id.clone(),
                limit: *limit,
            },
            ClientCommand::SendTextMessage { conversation_id, text } => ClientCommand::SendTextMessage {
                conversation_id: conversation_id.clone(),
                text: text.clone(),
            },
        }
    }
}

} // verus!
