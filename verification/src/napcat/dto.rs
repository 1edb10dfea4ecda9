//! The protocol's data as the library reads and writes it.
use vstd::prelude::*;

verus! {

/// A value in a segment's data: a JSON string, or any other JSON value kept
/// as its JSON text.
#[derive(Clone, Debug)]
pub enum DataValue {
    Text(String),
    Json(String),
}

/// One entry of a segment's data.
#[derive(Clone, Debug)]
pub struct DataField {
    pub key: String,
    pub value: DataValue,
}

/// One segment of a message: its type, and its data as key and value pairs.
#[derive(Clone, Debug)]
pub struct MessageSegment {
    pub kind: String,
    pub data: Vec<DataField>,
}

/// An event that the server pushes. `raw_json` is the whole event as it was
/// decoded, with the fields that the client does not read.
#[derive(Clone, Debug)]
pub struct EventEnvelope {
    pub post_type: Option<String>,
    pub message_type: Option<String>,
    pub sub_type: Option<String>,
    pub time: Option<i64>,
    pub self_id: Option<i64>,
    pub user_id: Option<i64>,
    pub group_id: Option<i64>,
    pub message_id: Option<i64>,
    pub message: Option<Vec<MessageSegment>>,
    pub raw_message: Option<String>,
    pub raw_json: Option<serde_json::Value>,
}

/// Whom an action is for: a numeric id, or an id that is not a number.
#[derive(Clone, Debug)]
pub enum ActionTarget {
    Id(i64),
    Name(String),
}

/// The parameters of a send action: one text segment, and the target under
/// the key `target_key`.
#[derive(Clone, Debug)]
pub struct ActionParams {
    pub text: String,
    pub target_key: String,
    pub target: ActionTarget,
}

/// An action that the client asks the server to take; `echo` comes back in
/// the response.
#[derive(Clone, Debug)]
pub struct ActionRequest {
    pub action: String,
    pub params: ActionParams,
    pub echo: String,
}

/// The server's answer to an action.
#[derive(Clone, Debug)]
pub struct ActionResponse {
    pub status: Option<String>,
    pub retcode: Option<i64>,
    pub data: Option<serde_json::Value>,
    pub message: Option<String>,
    pub wording: Option<String>,
    pub echo: Option<String>,
}

} // verus!
