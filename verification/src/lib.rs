//! A small chat-client core: domain model, state reduction, protocol mapping
//! and rendering, with their behaviour stated and proved.

pub mod id;
pub mod text;
pub mod sort;
pub mod config;
pub mod conversation;
pub mod message;
pub mod event;
pub mod command;
pub mod error;
pub mod view;
pub mod state;
pub mod render;
pub mod napcat;
pub mod store;
pub mod service;
pub mod ports;
pub mod tui;

pub use id::{ConversationId, LocalMessageId, RemoteMessageId, UserId};
pub use command::ClientCommand;
pub use config::ConnectionConfig;
pub use conversation::{Conversation, ConversationKind};
pub use error::{CoreError, CoreResult};
pub use event::{ConnectionState, DomainEvent};
pub use message::{Message, MessageDirection, RichNode, SendState};
pub use render::{plain_text_preview, HtmlRenderer, PlainTextRenderer, RichTextRenderer};
pub use state::ClientState;
pub use view::{ConversationView, MessageView, TimelineView};
