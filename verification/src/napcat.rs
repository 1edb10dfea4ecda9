//! The NapCat (OneBot 11) side: the protocol's data, how its events become
//! domain events and replies become actions, and the gateway's decisions.
pub mod dto;
pub mod mapper;
pub mod gateway;

pub use dto::{ActionParams, ActionRequest, ActionResponse, ActionTarget, DataField, DataValue, EventEnvelope, MessageSegment};
pub use mapper::{events_from_message, text_message_action};
