use vstd::prelude::*;
use serde_json::Value;

verus! {

/// The failures that the registry and client operations surface to the host.
///
/// Every public operation of the library returns either a success value or
/// exactly one of these; none is retried internally.
#[derive(Debug)]
pub enum ClientError {
    /// The server executable could not be spawned; carries the spawn failure text.
    SpawnError(String),
    /// `connect`: the server name is already bound to a live client.
    AlreadyConnected,
    /// The server name is not bound to any client.
    NotConnected,
    /// A protocol operation was attempted before the handshake completed.
    NotInitialized,
    /// The peer closed its output stream before replying.
    ConnectionClosed,
    /// The peer sent a blank line where a response was expected.
    EmptyResponse,
    /// The response line was not valid JSON; carries the raw line for diagnostics.
    ParseError(String),
    /// The response carried a non-null JSON-RPC `error` member; carries that payload.
    ProtocolError(Value),
    /// The registry lock could not be acquired.
    LockError,
}

impl ClientError {
    /// A short descriptive text for each failure, as the host shows it.
    pub fn message(&self) -> (r: String)
        ensures
            self matches ClientError::SpawnError(t) ==> r@ == "failed to spawn server: "@ + t@,
            self is AlreadyConnected ==> r@ == "server is already connected"@,
            self is NotConnected ==> r@ == "server not connected"@,
            self is NotInitialized ==> r@ == "client not initialized"@,
            self is ConnectionClosed ==> r@ == "server closed connection"@,
            self is EmptyResponse ==> r@ == "empty response from server"@,
            self matches ClientError::ParseError(t) ==> r@ == "failed to parse response: "@ + t@,
            self is ProtocolError ==> r@ == "error response from server"@,
            self is LockError ==> r@ == "registry lock unavailable"@,
    {
        match self {
            ClientError::SpawnError(t) => {
                let mut s = String::from_str("failed to spawn server: ");
                s.append(t.as_str());
                s
            },
            ClientError::AlreadyConnected => String::from_str("server is already connected"),
            ClientError::NotConnected => String::from_str("server not connected"),
            ClientError::NotInitialized => String::from_str("client not initialized"),
            ClientError::ConnectionClosed => String::from_str("server closed connection"),
            ClientError::EmptyResponse => String::from_str("empty response from server"),
            ClientError::ParseError(t) => {
                let mut s = String::from_str("failed to parse response: ");
                s.append(t.as_str());
                s
            },
            ClientError::ProtocolError(_) => String::from_str("error response from server"),
            ClientError::LockError => String::from_str("registry lock unavailable"),
        }
    }
}

} // verus!
