//! The errors of the client core.
use vstd::prelude::*;
use vstd::string::*;

verus! {

/// Why an operation of the client failed.
#[derive(Debug)]
pub enum CoreError {
    CommandChannelClosed,
    EventChannelClosed,
    InvalidCommand(String),
    Gateway(String),
    Store(String),
}

/// The result of an operation of the client.
pub type CoreResult<T> = Result<T, CoreError>;

/// The sentence that describes an error.
pub open spec fn error_message(error: CoreError) -> Seq<char> {
    match error {
        CoreError::CommandChannelClosed => "core command channel is closed"@,
        CoreError::EventChannelClosed => "core event channel is closed"@,
        CoreError::InvalidCommand(detail) => "invalid command: "@ + detail@,
        CoreError::Gateway(detail) => "gateway error: "@ + detail@,
        CoreError::Store(detail) => "store error: "@ + detail@,
    }
}

impl CoreError {
    /// The sentence that describes the error.
    pub fn message(&self) -> (text: String)
        ensures
            text@ == error_message(*self),
    {
        match self {
            CoreError::CommandChannelClosed => String::from_str("core command channel is closed"),
            CoreError::EventChannelClosed => String::from_str("core event channel is closed"),
            CoreError::InvalidCommand(detail) => String::from_str("invalid command: ").concat(detail.as_str()),
            CoreError::Gateway(detail) => String::from_str("gateway error: ").concat(detail.as_str()),
            CoreError::Store(detail) => String::from_str("store error: ").concat(detail.as_str()),
        }
    }
}

impl Clone for CoreError {
    fn clone(&self) -> (res: Self)
        ensures
            res == *self,
    {
        match self {
            CoreError::CommandChannelClosed => CoreError::CommandChannelClosed,
            CoreError::EventChannelClosed => CoreError::EventChannelClosed,
            CoreError::InvalidCommand(detail) => CoreError::InvalidCommand(detail.clone()),
            CoreError::Gateway(detail) => CoreError::Gateway(detail.clone()),
            CoreError::Store(detail) => CoreError::Store(detail.clone()),
        }
    }
}

} // verus!
