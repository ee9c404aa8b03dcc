use vstd::prelude::*;
use serde_json::Value;
use crate::codec::{build_notification_line, build_request_line, request_line, notification_line};
use crate::errors::ClientError;
use crate::text::{escape_str, json_escaped};

verus! {

/// Lifecycle phase of one client connection. A client is created, drives the
/// handshake, serves requests while ready, and is torn down; no other
/// transitions exist.
#[derive(Clone, Copy, Debug)]
pub enum Phase {
    /// The subprocess was spawned; the handshake has not started.
    Created,
    /// The `initialize` exchange is in flight.
    Initializing,
    /// The handshake completed; protocol operations are permitted.
    Ready,
    /// Teardown has begun; the best-effort `shutdown` exchange may be in flight.
    ShuttingDown,
    /// The subprocess was killed; no operation is defined any more.
    Terminated,
}

/// The protocol-side state of one server connection: the request-id counter
/// and the lifecycle phase. The subprocess itself and its pipes live with the
/// host, which writes the lines this client hands it and reads the peer's
/// reply lines back.
#[derive(Clone, Copy, Debug)]
pub struct MCPClient {
    /// The id the next request will carry. Starts at 1, never reused, never
    /// decreases.
    pub request_id_counter: u64,
    /// Where in its lifecycle this connection stands.
    pub phase: Phase,
}

/// The params object of the `initialize` request: protocol version, tool
/// capabilities, and the client identity.
pub open spec fn initialize_params() -> Seq<char> {
    "{\"protocolVersion\":\"2024-11-05\",\"capabilities\":{\"tools\":{}},\"clientInfo\":{\"name\":\"butler\",\"version\":\"0.1.0\"}}"@
}

/// The params object of a `tools/call` request: tool name and arguments. The
/// arguments stand as given, already written in JSON form.
pub open spec fn call_tool_params(tool: Seq<char>, arguments_json: Seq<char>) -> Seq<char> {
    "{\"name\":\""@ + json_escaped(tool) + "\",\"arguments\":"@ + arguments_json + "}"@
}

/// The params object of a `resources/read` request.
pub open spec fn read_resource_params(uri: Seq<char>) -> Seq<char> {
    "{\"uri\":\""@ + json_escaped(uri) + "\"}"@
}

/// One request was issued: it carried the counter the client held before, and
/// the counter moved up by exactly one.
pub open spec fn issues_id(pre: MCPClient, post: MCPClient, id: u64) -> bool {
    &&& id == pre.request_id_counter
    &&& post.request_id_counter == pre.request_id_counter + 1
}

/// What each protocol operation (`list_tools`, `call_tool`, `list_resources`,
/// `read_resource`) does: anywhere but `Ready` it refuses with
/// `NotInitialized` and changes nothing; in `Ready` it hands out the request
/// line for its method and params, carrying the next id, and stays `Ready`.
pub open spec fn op_post(
    pre: MCPClient,
    post: MCPClient,
    r: Result<String, ClientError>,
    method: Seq<char>,
    params: Option<Seq<char>>,
) -> bool {
    &&& !(pre.phase is Ready) ==> (r matches Err(e) && e is NotInitialized) && post == pre
    &&& pre.phase is Ready ==> {
        &&& r matches Ok(line) && line@ == request_line(pre.request_id_counter, method, params)
        &&& issues_id(pre, post, pre.request_id_counter)
        &&& post.phase is Ready
    }
}

impl MCPClient {
    /// Room for one more id.
    pub open spec fn can_issue(self) -> bool {
        self.request_id_counter < u64::MAX
    }

    /// A fresh connection state, as it stands right after the subprocess
    /// spawned: counter at 1, handshake not yet started.
    pub fn new() -> (c: Self)
        ensures
            c.request_id_counter == 1,
            c.phase is Created,
    {
        MCPClient { request_id_counter: 1, phase: Phase::Created }
    }

    /// Hands out the next request id and moves the counter up by one; ids are
    /// never reused.
    fn next_request_id(&mut self) -> (id: u64)
        requires
            old(self).can_issue(),
        ensures
            issues_id(*old(self), *final(self), id),
            final(self).phase == old(self).phase,
    {
        let id = self.request_id_counter;
        self.request_id_counter = self.request_id_counter + 1;
        id
    }

    /// Opens the handshake: hands out the `initialize` request line and moves
    /// the connection into `Initializing`.
    pub fn initialize_request(&mut self) -> (r: String)
        requires
            old(self).phase is Created,
            old(self).can_issue(),
        ensures
            r@ == request_line(
                old(self).request_id_counter,
                "initialize"@,
                Some(initialize_params()),
            ),
            issues_id(*old(self), *final(self), old(self).request_id_counter),
            final(self).phase is Initializing,
    {
        let id = self.next_request_id();
        self.phase = Phase::Initializing;
        build_request_line(
            id,
            "initialize",
            Some("{\"protocolVersion\":\"2024-11-05\",\"capabilities\":{\"tools\":{}},\"clientInfo\":{\"name\":\"butler\",\"version\":\"0.1.0\"}}"),
        )
    }

    /// The `notifications/initialized` notification line, sent fire-and-forget
    /// once the `initialize` response arrived.
    pub fn initialized_notification(&self) -> (r: String)
        ensures
            r@ == notification_line("notifications/initialized"@),
    {
        build_notification_line("notifications/initialized")
    }

    /// Closes the handshake with the outcome of the `initialize` exchange and
    /// of sending the notification. On success the connection becomes `Ready`;
    /// any failure aborts construction, the connection is torn down (the host
    /// kills the subprocess before surfacing the error), and the same error
    /// comes back.
    pub fn complete_handshake(&mut self, outcome: Result<Value, ClientError>) -> (r: Result<
        (),
        ClientError,
    >)
        requires
            old(self).phase is Initializing,
        ensures
            final(self).request_id_counter == old(self).request_id_counter,
            outcome is Ok ==> r is Ok && final(self).phase is Ready,
            outcome matches Err(e) ==> r == Err::<(), ClientError>(e)
                && final(self).phase is Terminated,
    {
        match outcome {
            Ok(_) => {
                self.phase = Phase::Ready;
                Ok(())
            },
            Err(e) => {
                self.phase = Phase::Terminated;
                Err(e)
            },
        }
    }

    /// The `tools/list` request line, or `NotInitialized` before the handshake
    /// has completed.
    pub fn list_tools(&mut self) -> (r: Result<String, ClientError>)
        requires
            old(self).phase is Ready ==> old(self).can_issue(),
        ensures
            op_post(*old(self), *final(self), r, "tools/list"@, None),
    {
        if let Phase::Ready = self.phase {
            let id = self.next_request_id();
            Ok(build_request_line(id, "tools/list", None))
        } else {
            Err(ClientError::NotInitialized)
        }
    }

    /// The `tools/call` request line for one tool and its arguments (already
    /// written in JSON form), or `NotInitialized` before the handshake has
    /// completed.
    pub fn call_tool(&mut self, name: &str, arguments_json: &str) -> (r: Result<
        String,
        ClientError,
    >)
        requires
            old(self).phase is Ready ==> old(self).can_issue(),
        ensures
            op_post(
                *old(self),
                *final(self),
                r,
                "tools/call"@,
                Some(call_tool_params(name@, arguments_json@)),
            ),
    {
        if let Phase::Ready = self.phase {
            let id = self.next_request_id();
            let mut params = String::from_str("{\"name\":\"");
            let escaped = escape_str(name);
            params.append(escaped.as_str());
            params.append("\",\"arguments\":");
            params.append(arguments_json);
            params.append("}");
            proof {
                assert(params@ =~= call_tool_params(name@, arguments_json@));
            }
            Ok(build_request_line(id, "tools/call", Some(params.as_str())))
        } else {
            Err(ClientError::NotInitialized)
        }
    }

    /// The `resources/list` request line, or `NotInitialized` before the
    /// handshake has completed.
    pub fn list_resources(&mut self) -> (r: Result<String, ClientError>)
        requires
            old(self).phase is Ready ==> old(self).can_issue(),
        ensures
            op_post(*old(self), *final(self), r, "resources/list"@, None),
    {
        if let Phase::Ready = self.phase {
            let id = self.next_request_id();
            Ok(build_request_line(id, "resources/list", None))
        } else {
            Err(ClientError::NotInitialized)
        }
    }

    /// The `resources/read` request line for one resource, or `NotInitialized`
    /// before the handshake has completed.
    pub fn read_resource(&mut self, uri: &str) -> (r: Result<String, ClientError>)
        requires
            old(self).phase is Ready ==> old(self).can_issue(),
        ensures
            op_post(
                *old(self),
                *final(self),
                r,
                "resources/read"@,
                Some(read_resource_params(uri@)),
            ),
    {
        if let Phase::Ready = self.phase {
            let id = self.next_request_id();
            let mut params = String::from_str("{\"uri\":\"");
            let escaped = escape_str(uri);
            params.append(escaped.as_str());
            params.append("\"}");
            proof {
                assert(params@ =~= read_resource_params(uri@));
            }
            Ok(build_request_line(id, "resources/read", Some(params.as_str())))
        } else {
            Err(ClientError::NotInitialized)
        }
    }

    /// Begins teardown. A ready connection hands out the best-effort
    /// `shutdown` request line — whatever becomes of that exchange is ignored
    /// by design — any other connection has nothing to say. Either way the
    /// connection enters `ShuttingDown` and only `confirm_killed` follows.
    pub fn shutdown(&mut self) -> (r: Option<String>)
        requires
            old(self).phase is Ready ==> old(self).can_issue(),
        ensures
            final(self).phase is ShuttingDown,
            old(self).phase is Ready ==> (r matches Some(line) && line@ == request_line(
                old(self).request_id_counter,
                "shutdown"@,
                None,
            )) && issues_id(*old(self), *final(self), old(self).request_id_counter),
            !(old(self).phase is Ready) ==> r is None
                && final(self).request_id_counter == old(self).request_id_counter,
    {
        if let Phase::Ready = self.phase {
            let id = self.next_request_id();
            self.phase = Phase::ShuttingDown;
            Some(build_request_line(id, "shutdown", None))
        } else {
            self.phase = Phase::ShuttingDown;
            None
        }
    }

    /// Ends teardown once the host has killed the subprocess. Succeeds for
    /// every outcome of the best-effort `shutdown` exchange: termination does
    /// not depend on the peer.
    pub fn confirm_killed(&mut self)
        requires
            old(self).phase is ShuttingDown,
        ensures
            final(self).phase is Terminated,
            final(self).request_id_counter == old(self).request_id_counter,
    {
        self.phase = Phase::Terminated;
    }
}

} // verus!
