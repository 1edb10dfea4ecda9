//! The commands that the client core answers itself, and the `Debug` text of
//! commands that its error messages quote.
use vstd::prelude::*;
use vstd::string::*;
use crate::command::ClientCommand;
use crate::config::ConnectionConfig;
use crate::error::{CoreError, CoreResult};
use crate::id::ConversationId;
use crate::text::{decimal_text, opt_text, push_decimal_digits};

verus! {

/// What `format!("{:?}", s)` writes for a text: std's `Debug` for `str`, the
/// text in double quotes with quotes, backslashes and other special characters
/// escaped.
pub uninterp spec fn str_debug(s: Seq<char>) -> Seq<char>;

/// Calls std's `<str as Debug>::fmt` through `format!("{:?}")`. The contract
/// names the result `str_debug` of the text; which characters std escapes, and
/// how, is not stated.
#[verifier::external_body]
fn debug_quoted(s: &str) -> (quoted: String)
    ensures
        quoted@ == str_debug(s@),
{
    format!("{:?}", s)
}

/// `Debug` of a `bool`.
pub open spec fn bool_debug(b: bool) -> Seq<char> {
    if b {
        "true"@
    } else {
        "false"@
    }
}

/// `Debug` of an optional text.
pub open spec fn opt_text_debug(value: Option<Seq<char>>) -> Seq<char> {
    match value {
        Some(s) => "Some("@ + str_debug(s) + ")"@,
        None => "None"@,
    }
}

/// `Debug` of a connection config, as `derive(Debug)` writes a struct.
pub open spec fn config_debug(c: ConnectionConfig) -> Seq<char> {
    "ConnectionConfig { endpoint: "@ + str_debug(c.endpoint@) + ", access_token: "@ + opt_text_debug(
        opt_text(c.access_token),
    ) + ", reconnect: "@ + bool_debug(c.reconnect) + " }"@
}

/// `Debug` of a conversation id, as `derive(Debug)` writes a tuple struct.
pub open spec fn conversation_id_debug(id: ConversationId) -> Seq<char> {
    "ConversationId("@ + str_debug(id@) + ")"@
}

/// `Debug` of a command, as `derive(Debug)` writes an enum.
pub open spec fn command_debug(c: ClientCommand) -> Seq<char> {
    match c {
        ClientCommand::Connect(config) => "Connect("@ + config_debug(config) + ")"@,
        ClientCommand::Disconnect => "Disconnect"@,
        ClientCommand::LoadConversations => "LoadConversations"@,
        ClientCommand::LoadMessages { conversation_id, limit } => "LoadMessages { conversation_id: "@
            + conversation_id_debug(conversation_id) + ", limit: "@ + decimal_text(limit as int) + " }"@,
        ClientCommand::SendTextMessage { conversation_id, text } => "SendTextMessage { conversation_id: "@
            + conversation_id_debug(conversation_id) + ", text: "@ + str_debug(text@) + " }"@,
    }
}

fn push_conversation_id_debug(out: &mut String, id: &ConversationId)
    ensures
        final(out)@ == old(out)@ + conversation_id_debug(*id),
{
    out.append("ConversationId(");
    let quoted = debug_quoted(id.as_str());
    out.append(quoted.as_str());
    out.append(")");
    assert(final(out)@ =~= old(out)@ + conversation_id_debug(*id));
}

fn push_config_debug(out: &mut String, config: &ConnectionConfig)
    ensures
        final(out)@ == old(out)@ + config_debug(*config),
{
    let ghost start = out@;
    out.append("ConnectionConfig { endpoint: ");
    let endpoint = debug_quoted(config.endpoint.as_str());
    out.append(endpoint.as_str());
    out.append(", access_token: ");
    match &config.access_token {
        Some(token) => {
            out.append("Some(");
            let quoted = debug_quoted(token.as_str());
            out.append(quoted.as_str());
            out.append(")");
        },
        None => {
            out.append("None");
        },
    }
    out.append(", reconnect: ");
    if config.reconnect {
        out.append("true");
    } else {
        out.append("false");
    }
    out.append(" }");
    assert(out@ =~= start + config_debug(*config));
}

/// The `Debug` text of a command.
pub fn command_debug_text(command: &ClientCommand) -> (text: String)
    ensures
        text@ == command_debug(*command),
{
    let mut text = String::new();
    match command {
        ClientCommand::Connect(config) => {
            text.append("Connect(");
            push_config_debug(&mut text, config);
            text.append(")");
        },
        ClientCommand::Disconnect => {
            text.append("Disconnect");
        },
        ClientCommand::LoadConversations => {
            text.append("LoadConversations");
        },
        ClientCommand::LoadMessages { conversation_id, limit } => {
            text.append("LoadMessages { conversation_id: ");
            push_conversation_id_debug(&mut text, conversation_id);
            text.append(", limit: ");
            push_decimal_digits(&mut text, *limit as u64);
            text.append(" }");
        },
        ClientCommand::SendTextMessage { conversation_id, text: message } => {
            text.append("SendTextMessage { conversation_id: ");
            push_conversation_id_debug(&mut text, conversation_id);
            text.append(", text: ");
            let quoted = debug_quoted(message.as_str());
            text.append(quoted.as_str());
            text.append(" }");
        },
    }
    assert(text@ =~= command_debug(*command));
    text
}

/// The end of the message that refuses a command the core does not handle.
pub open spec fn adapter_only_suffix() -> Seq<char> {
    " must be handled by an adapter"@
}

/// Handles a command locally: loading is answered by the core (there is
/// nothing to do), any other command belongs to an adapter and is refused,
/// quoting the command.
pub fn handle_local_command(command: ClientCommand) -> (result: CoreResult<()>)
    ensures
        command is LoadConversations || command is LoadMessages ==> result is Ok,
        !(command is LoadConversations || command is LoadMessages) ==> (result matches Err(
            CoreError::InvalidCommand(detail),
        ) && detail@ == command_debug(command) + adapter_only_suffix()),
{
    match command {
        ClientCommand::LoadConversations => Ok(()),
        ClientCommand::LoadMessages { .. } => Ok(()),
        other => {
            let mut detail = command_debug_text(&other);
            detail.append(" must be handled by an adapter");
            Err(CoreError::InvalidCommand(detail))
        },
    }
}

} // verus!
