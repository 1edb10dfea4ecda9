//! The gateway's decisions: what each command does to the connection, what
//! the end of a connection announces, and what a received frame yields. The
//! caller performs the actions: it runs and aborts the connection task,
//! publishes the events and sends the actions.
use vstd::prelude::*;
use vstd::string::*;
use crate::command::ClientCommand;
use crate::config::ConnectionConfig;
use crate::error::{CoreError, CoreResult, error_message};
use crate::event::{ConnectionState, DomainEvent};
use crate::id::is_uuid_v4_text;
use crate::napcat::dto::{ActionRequest, EventEnvelope};
use crate::id::is_generated_local_id;
use crate::napcat::mapper::{
    conversation_from_event, event_conversation, events_from_message, is_message_from, sends_text_to,
    text_message_action, time_fits,
};

verus! {

/// What the gateway keeps between commands: the configuration of the
/// connection it was last asked to open, whether a connection task runs, and
/// (as a ghost) the commands it has handled.
pub struct GatewayState {
    active_config: Option<ConnectionConfig>,
    connection_running: bool,
    commands: Ghost<Seq<ClientCommand>>,
}

/// The gateway's state as plain values.
pub struct GatewayModel {
    pub active_config: Option<ConnectionConfig>,
    pub connection_running: bool,
    pub commands: Seq<ClientCommand>,
}

impl View for GatewayState {
    type V = GatewayModel;

    closed spec fn view(&self) -> GatewayModel {
        GatewayModel {
            active_config: self.active_config,
            connection_running: self.connection_running,
            commands: self.commands@,
        }
    }
}

/// Something the gateway asks its caller to do.
#[derive(Debug)]
pub enum GatewayAction {
    /// Stop the running connection task.
    AbortConnection,
    /// Start a connection task for the configuration.
    StartConnection(ConnectionConfig),
    /// Publish the event.
    Publish(DomainEvent),
    /// Send the action over a connection of the configuration.
    SendAction(ConnectionConfig, ActionRequest),
}

/// Whether an event announces that the connection failed for the given
/// reason.
pub open spec fn is_failure(event: DomainEvent, reason: Seq<char>) -> bool {
    event matches DomainEvent::ConnectionChanged(ConnectionState::Failed { reason: r }) && r@ == reason
}

/// Why a message cannot be sent before a connection was asked for.
pub open spec fn not_connected_reason() -> Seq<char> {
    "not connected to NapCat"@
}

/// The configuration the gateway remembers after a command: the one it was
/// asked to connect with, none after a disconnection, else the one before.
pub open spec fn next_active(active: Option<ConnectionConfig>, command: ClientCommand) -> Option<
    ConnectionConfig,
> {
    match command {
        ClientCommand::Connect(config) => Some(config),
        ClientCommand::Disconnect => None,
        _ => active,
    }
}

/// The configuration the gateway remembers after a sequence of commands.
pub open spec fn active_after(start: Option<ConnectionConfig>, commands: Seq<ClientCommand>) -> Option<
    ConnectionConfig,
>
    decreases commands.len(),
{
    if commands.len() == 0 {
        start
    } else {
        next_active(active_after(start, commands.drop_last()), commands.last())
    }
}

/// The last command of the sequence that connects or disconnects, if any.
pub open spec fn last_connection_command(commands: Seq<ClientCommand>) -> Option<ClientCommand>
    decreases commands.len(),
{
    if commands.len() == 0 {
        None
    } else if commands.last() is Connect || commands.last() is Disconnect {
        Some(commands.last())
    } else {
        last_connection_command(commands.drop_last())
    }
}

/// Law: a fresh gateway, after any sequence of commands, sends texts over a
/// connection of the configuration of the last `Connect`, unless a
/// `Disconnect` came after it; with none, or after a `Disconnect`, it has no
/// configuration, and `handle` answers a text with the failure
/// `not connected to NapCat`.
pub proof fn lemma_active_after_commands(commands: Seq<ClientCommand>)
    ensures
        active_after(None, commands) == match last_connection_command(commands) {
            Some(ClientCommand::Connect(config)) => Some(config),
            _ => None,
        },
    decreases commands.len(),
{
    if commands.len() > 0 {
        lemma_active_after_commands(commands.drop_last());
    }
}

impl GatewayState {
    /// The remembered configuration is the one the handled commands leave.
    #[verifier::type_invariant]
    spec fn follows_commands(self) -> bool {
        self.active_config == active_after(None, self.commands@)
    }

    /// No connection asked for, no task running, no command handled.
    pub fn new() -> (state: Self)
        ensures
            state@.active_config is None,
            !state@.connection_running,
            state@.commands == Seq::<ClientCommand>::empty(),
    {
        GatewayState { active_config: None, connection_running: false, commands: Ghost(Seq::empty()) }
    }

    /// The configuration of the connection last asked for, if any.
    pub fn active_config(&self) -> (config: &Option<ConnectionConfig>)
        ensures
            *config == self@.active_config,
    {
        &self.active_config
    }

    /// Whether a connection task runs.
    pub fn connection_running(&self) -> (running: bool)
        ensures
            running == self@.connection_running,
    {
        self.connection_running
    }

    /// What a command does. Connecting stops the running task, if any,
    /// remembers the configuration, announces that it is connecting and starts
    /// a task. Disconnecting forgets the configuration, stops the task and
    /// announces the disconnection. Sending a text sends it over a connection
    /// of the configuration of the last `Connect` handled, unless a
    /// `Disconnect` came after it; else it announces that there is no
    /// connection. Loading is not the gateway's to do.
    pub fn handle(&mut self, command: ClientCommand) -> (actions: Vec<GatewayAction>)
        ensures
            final(self)@.commands == old(self)@.commands.push(command),
            final(self)@.active_config == next_active(old(self)@.active_config, command),
            old(self)@.active_config == match last_connection_command(old(self)@.commands) {
                Some(ClientCommand::Connect(config)) => Some(config),
                _ => None,
            },
            match command {
                ClientCommand::Connect(config) => {
                    let k: int = if old(self)@.connection_running { 1 } else { 0 };
                    &&& final(self)@.active_config == Some(config)
                    &&& final(self)@.connection_running
                    &&& actions.len() == k + 2
                    &&& old(self)@.connection_running ==> actions[0] is AbortConnection
                    &&& actions[k] == GatewayAction::Publish(
                        DomainEvent::ConnectionChanged(ConnectionState::Connecting),
                    )
                    &&& actions[k + 1] == GatewayAction::StartConnection(config)
                },
                ClientCommand::Disconnect => {
                    let k: int = if old(self)@.connection_running { 1 } else { 0 };
                    &&& final(self)@.active_config is None
                    &&& !final(self)@.connection_running
                    &&& actions.len() == k + 1
                    &&& old(self)@.connection_running ==> actions[0] is AbortConnection
                    &&& actions[k] == GatewayAction::Publish(
                        DomainEvent::ConnectionChanged(ConnectionState::Disconnected),
                    )
                },
                ClientCommand::SendTextMessage { conversation_id, text } => {
                    &&& final(self)@.active_config == old(self)@.active_config
                    &&& final(self)@.connection_running == old(self)@.connection_running
                    &&& actions.len() == 1
                    &&& match last_connection_command(old(self)@.commands) {
                        Some(ClientCommand::Connect(config)) => actions[0] matches GatewayAction::SendAction(
                            c,
                            request,
                        ) && c == config && sends_text_to(request, conversation_id@, text@) && is_uuid_v4_text(
                            request.echo@,
                        ),
                        _ => actions[0] matches GatewayAction::Publish(e) && is_failure(e, not_connected_reason()),
                    }
                },
                _ => {
                    &&& final(self)@.active_config == old(self)@.active_config
                    &&& final(self)@.connection_running == old(self)@.connection_running
                    &&& actions.len() == 0
                },
            },
    {
        proof {
            use_type_invariant(&*self);
            lemma_active_after_commands(self.commands@);
        }
        let ghost handled = self.commands@.push(command);
        assert(handled.drop_last() =~= self.commands@);
        let mut actions: Vec<GatewayAction> = Vec::new();
        match command {
            ClientCommand::Connect(config) => {
                if self.connection_running {
                    actions.push(GatewayAction::AbortConnection);
                }
                actions.push(
                    GatewayAction::Publish(DomainEvent::ConnectionChanged(ConnectionState::Connecting)),
                );
                actions.push(GatewayAction::StartConnection(config.clone()));
                *self = GatewayState { active_config: Some(config), connection_running: true, commands: Ghost(handled) };
            },
            ClientCommand::Disconnect => {
                if self.connection_running {
                    actions.push(GatewayAction::AbortConnection);
                }
                *self = GatewayState { active_config: None, connection_running: false, commands: Ghost(handled) };
                actions.push(
                    GatewayAction::Publish(DomainEvent::ConnectionChanged(ConnectionState::Disconnected)),
                );
            },
            ClientCommand::SendTextMessage { conversation_id, text } => {
                match &self.active_config {
                    None => {
                        actions.push(
                            GatewayAction::Publish(
                                DomainEvent::ConnectionChanged(
                                    ConnectionState::Failed { reason: String::from_str("not connected to NapCat") },
                                ),
                            ),
                        );
                    },
                    Some(config) => {
                        let request = text_message_action(&conversation_id, text.as_str());
                        actions.push(GatewayAction::SendAction(config.clone(), request));
                    },
                }
                self.commands = Ghost(handled);
            },
            ClientCommand::LoadConversations => {
                self.commands = Ghost(handled);
            },
            ClientCommand::LoadMessages { .. } => {
                self.commands = Ghost(handled);
            },
        }
        actions
    }
}

/// The event that announces that an action could not be sent.
pub fn action_failed(error: &CoreError) -> (event: DomainEvent)
    ensures
        is_failure(event, error_message(*error)),
{
    DomainEvent::ConnectionChanged(ConnectionState::Failed { reason: error.message() })
}

/// What the end of a connection announces, and whether to connect again: a
/// connection that ended cleanly announces the disconnection, one that failed
/// announces the failure; with reconnection on, the task then announces that
/// it reconnects and goes on.
pub fn connection_ended(result: &CoreResult<()>, reconnect: bool) -> (next: (Vec<DomainEvent>, bool))
    ensures
        next.1 == reconnect,
        next.0.len() == if reconnect { 2int } else { 1int },
        match result {
            Ok(()) => next.0[0] == DomainEvent::ConnectionChanged(ConnectionState::Disconnected),
            Err(error) => is_failure(next.0[0], error_message(*error)),
        },
        reconnect ==> next.0[1] == DomainEvent::ConnectionChanged(ConnectionState::Reconnecting),
{
    let mut events: Vec<DomainEvent> = Vec::new();
    match result {
        Ok(()) => events.push(DomainEvent::ConnectionChanged(ConnectionState::Disconnected)),
        Err(error) => events.push(action_failed(error)),
    }
    if reconnect {
        events.push(DomainEvent::ConnectionChanged(ConnectionState::Reconnecting));
    }
    (events, reconnect)
}

/// Whether the time of an event can be turned into milliseconds, where the
/// mapper does so.
pub fn event_time_fits(event: &EventEnvelope) -> (fits: bool)
    ensures
        fits == time_fits(*event),
{
    let is_message = match &event.post_type {
        Some(p) => crate::text::same_text(p.as_str(), "message"),
        None => false,
    };
    if !is_message || event.message_type.is_none() || event.user_id.is_none() {
        return true;
    }
    match event.time {
        Some(t) => -9223372036854775i64 <= t && t <= 9223372036854775i64,
        None => true,
    }
}

/// The start of the reason given for a frame that is not an event.
pub open spec fn decode_failure_prefix() -> Seq<char> {
    "failed to decode NapCat event: "@
}

/// What a text frame yields: the domain events of the event it holds, or,
/// where it could not be decoded, a failure that quotes why. A message's local
/// id is generated with `counter`.
pub fn events_from_frame(decoded: Result<EventEnvelope, String>, counter: u64) -> (events: Vec<DomainEvent>)
    requires
        decoded matches Ok(e) ==> time_fits(e),
    ensures
        match decoded {
            Ok(e) => {
                &&& event_conversation(e) is None ==> events.len() == 0
                &&& event_conversation(e) is Some ==> {
                    &&& events.len() == 2
                    &&& events[0] matches DomainEvent::ConversationUpdated(c) && c@ == conversation_from_event(e)
                    &&& events[1] matches DomainEvent::MessageReceived(m) && is_generated_local_id(
                        m.local_id@,
                        counter,
                    ) && is_message_from(e, m)
                }
            },
            Err(detail) => events.len() == 1 && is_failure(events[0], decode_failure_prefix() + detail@),
        },
{
    match decoded {
        Ok(event) => events_from_message(event, counter),
        Err(detail) => {
            let reason = String::from_str("failed to decode NapCat event: ").concat(detail.as_str());
            let mut events: Vec<DomainEvent> = Vec::new();
            events.push(DomainEvent::ConnectionChanged(ConnectionState::Failed { reason }));
            events
        },
    }
}

/// The value of the `Authorization` header for an access token.
pub fn bearer_authorization(token: &str) -> (header: String)
    ensures
        header@ == "Bearer "@ + token@,
{
    String::from_str("Bearer ").concat(token)
}

/// The error for an access token that cannot stand in a header.
pub fn invalid_token_error(detail: &str) -> (error: CoreError)
    ensures
        error matches CoreError::Gateway(d) && d@ == "invalid access token header: "@ + detail@,
{
    CoreError::Gateway(String::from_str("invalid access token header: ").concat(detail))
}

} // verus!
