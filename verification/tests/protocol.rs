use mcp_registry::client::{MCPClient, Phase};
use mcp_registry::codec::classify_response;
use mcp_registry::errors::ClientError;
use mcp_registry::text::{escape_str, u64_to_string};

fn ready_client() -> MCPClient {
    let mut c = MCPClient::new();
    let init = c.initialize_request();
    assert_eq!(
        init,
        "{\"jsonrpc\":\"2.0\",\"id\":1,\"method\":\"initialize\",\"params\":{\"protocolVersion\":\"2024-11-05\",\"capabilities\":{\"tools\":{}},\"clientInfo\":{\"name\":\"butler\",\"version\":\"0.1.0\"}}}"
    );
    let response: serde_json::Value = serde_json::from_str("{\"jsonrpc\":\"2.0\",\"id\":1,\"result\":{}}").unwrap();
    c.complete_handshake(Ok(response)).unwrap();
    c
}

#[test]
fn decimal_rendering() {
    assert_eq!(u64_to_string(0), "0");
    assert_eq!(u64_to_string(7), "7");
    assert_eq!(u64_to_string(10), "10");
    assert_eq!(u64_to_string(1234567890), "1234567890");
    assert_eq!(u64_to_string(u64::MAX), "18446744073709551615");
}

#[test]
fn json_string_escaping() {
    assert_eq!(escape_str("plain"), "plain");
    assert_eq!(escape_str("a\"b"), "a\\\"b");
    assert_eq!(escape_str("a\\b"), "a\\\\b");
    assert_eq!(escape_str("a\nb\rc\td"), "a\\nb\\rc\\td");
    assert_eq!(escape_str("\u{1}\u{1f}"), "\\u0001\\u001f");
    assert_eq!(escape_str(""), "");
}

#[test]
fn handshake_lines() {
    let mut c = MCPClient::new();
    assert!(matches!(c.phase, Phase::Created));
    let init = c.initialize_request();
    assert!(init.contains("\"id\":1"));
    assert!(matches!(c.phase, Phase::Initializing));
    assert_eq!(
        c.initialized_notification(),
        "{\"jsonrpc\":\"2.0\",\"method\":\"notifications/initialized\"}"
    );
}

#[test]
fn handshake_failure_aborts() {
    let mut c = MCPClient::new();
    let _ = c.initialize_request();
    let r = c.complete_handshake(Err(ClientError::ConnectionClosed));
    assert!(matches!(r, Err(ClientError::ConnectionClosed)));
    assert!(matches!(c.phase, Phase::Terminated));
    // The connection never becomes ready, so operations stay refused.
    assert!(matches!(c.list_tools(), Err(ClientError::NotInitialized)));
}

#[test]
fn operations_before_handshake_are_refused() {
    let mut c = MCPClient::new();
    assert!(matches!(c.list_tools(), Err(ClientError::NotInitialized)));
    assert!(matches!(c.call_tool("echo", "{}"), Err(ClientError::NotInitialized)));
    assert!(matches!(c.list_resources(), Err(ClientError::NotInitialized)));
    assert!(matches!(c.read_resource("file:///x"), Err(ClientError::NotInitialized)));
    assert_eq!(c.request_id_counter, 1);
}

#[test]
fn request_ids_are_consecutive() {
    let mut c = ready_client();
    let l2 = c.list_tools().unwrap();
    assert_eq!(l2, "{\"jsonrpc\":\"2.0\",\"id\":2,\"method\":\"tools/list\"}");
    let l3 = c.call_tool("echo", "{\"text\":\"hi\"}").unwrap();
    assert_eq!(
        l3,
        "{\"jsonrpc\":\"2.0\",\"id\":3,\"method\":\"tools/call\",\"params\":{\"name\":\"echo\",\"arguments\":{\"text\":\"hi\"}}}"
    );
    let l4 = c.list_resources().unwrap();
    assert_eq!(l4, "{\"jsonrpc\":\"2.0\",\"id\":4,\"method\":\"resources/list\"}");
    let l5 = c.read_resource("file:///tmp/a.txt").unwrap();
    assert_eq!(
        l5,
        "{\"jsonrpc\":\"2.0\",\"id\":5,\"method\":\"resources/read\",\"params\":{\"uri\":\"file:///tmp/a.txt\"}}"
    );
    assert_eq!(c.request_id_counter, 6);
}

#[test]
fn call_tool_escapes_the_tool_name() {
    let mut c = ready_client();
    let line = c.call_tool("we\"ird\\name", "{}").unwrap();
    assert_eq!(
        line,
        "{\"jsonrpc\":\"2.0\",\"id\":2,\"method\":\"tools/call\",\"params\":{\"name\":\"we\\\"ird\\\\name\",\"arguments\":{}}}"
    );
}

#[test]
fn shutdown_line_and_termination() {
    let mut c = ready_client();
    let line = c.shutdown();
    assert_eq!(line.as_deref(), Some("{\"jsonrpc\":\"2.0\",\"id\":2,\"method\":\"shutdown\"}"));
    assert!(matches!(c.phase, Phase::ShuttingDown));
    c.confirm_killed();
    assert!(matches!(c.phase, Phase::Terminated));

    // A connection that never became ready has nothing to say on teardown,
    // but terminates all the same.
    let mut d = MCPClient::new();
    assert!(d.shutdown().is_none());
    d.confirm_killed();
    assert!(matches!(d.phase, Phase::Terminated));
}

#[test]
fn closed_stream_is_connection_closed() {
    let r = classify_response(0, "");
    assert!(matches!(r, Err(ClientError::ConnectionClosed)));
}

#[test]
fn blank_line_is_empty_response() {
    let r = classify_response(4, "   \n");
    assert!(matches!(r, Err(ClientError::EmptyResponse)));
}

#[test]
fn non_json_line_is_parse_error_with_raw_line() {
    let r = classify_response(9, "not json\n");
    match r {
        Err(ClientError::ParseError(raw)) => assert_eq!(raw, "not json\n"),
        other => panic!("expected a parse error, got {:?}", other.is_ok()),
    }
}

#[test]
fn error_member_is_protocol_error_with_payload() {
    let r = classify_response(60, "{\"jsonrpc\":\"2.0\",\"id\":2,\"error\":{\"code\":-32601}}\n");
    match r {
        Err(ClientError::ProtocolError(payload)) => {
            assert_eq!(payload.get("code").and_then(|c| c.as_i64()), Some(-32601));
        },
        other => panic!("expected a protocol error, got {:?}", other.is_ok()),
    }
}

#[test]
fn null_error_member_is_success() {
    let r = classify_response(40, "{\"jsonrpc\":\"2.0\",\"id\":2,\"error\":null,\"result\":5}\n");
    let v = r.unwrap();
    assert_eq!(v.get("result").and_then(|x| x.as_i64()), Some(5));
}

#[test]
fn clean_reply_is_success() {
    let r = classify_response(50, " {\"jsonrpc\":\"2.0\",\"id\":2,\"result\":{\"tools\":[]}} \n");
    let v = r.unwrap();
    assert!(v.get("result").is_some());
}

#[test]
fn error_messages() {
    assert_eq!(
        ClientError::SpawnError(String::from("no such file")).message(),
        "failed to spawn server: no such file"
    );
    assert_eq!(ClientError::AlreadyConnected.message(), "server is already connected");
    assert_eq!(ClientError::NotConnected.message(), "server not connected");
    assert_eq!(ClientError::NotInitialized.message(), "client not initialized");
    assert_eq!(ClientError::ConnectionClosed.message(), "server closed connection");
    assert_eq!(ClientError::EmptyResponse.message(), "empty response from server");
    assert_eq!(
        ClientError::ParseError(String::from("garbage")).message(),
        "failed to parse response: garbage"
    );
    assert_eq!(ClientError::LockError.message(), "registry lock unavailable");
}
