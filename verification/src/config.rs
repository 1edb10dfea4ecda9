//! How to reach the chat server.
use vstd::prelude::*;
use vstd::string::*;
use crate::text::clone_opt_text;

verus! {

/// The endpoint to connect to, the optional access token, and whether to
/// reconnect after the connection ends.
#[derive(Debug)]
pub struct ConnectionConfig {
    pub endpoint: String,
    pub access_token: Option<String>,
    pub reconnect: bool,
}

/// The endpoint used when none is configured.
pub open spec fn default_endpoint() -> Seq<char> {
    "ws://127.0.0.1:3001"@
}

impl Default for ConnectionConfig {
    /// The local default endpoint, no token, reconnecting.
    fn default() -> (config: Self)
        ensures
            config.endpoint@ == default_endpoint(),
            config.access_token is None,
            config.reconnect,
    {
        ConnectionConfig {
            endpoint: String::from_str("ws://127.0.0.1:3001"),
            access_token: None,
            reconnect: true,
        }
    }
}

impl Clone for ConnectionConfig {
    fn clone(&self) -> (res: Self)
        ensures
            res == *self,
    {
        ConnectionConfig {
            endpoint: self.endpoint.clone(),
            access_token: clone_opt_text(&self.access_token),
            reconnect: self.reconnect,
        }
    }
}

} // verus!
