use std::collections::HashMap;

use mcp_registry::client::{MCPClient, Phase};
use mcp_registry::codec::classify_response;
use mcp_registry::errors::ClientError;
use mcp_registry::registry::ClientRegistry;

fn ready_client() -> MCPClient {
    let mut c = MCPClient::new();
    let _ = c.initialize_request();
    let response: serde_json::Value =
        serde_json::from_str("{\"jsonrpc\":\"2.0\",\"id\":1,\"result\":{}}").unwrap();
    c.complete_handshake(Ok(response)).unwrap();
    c
}

#[test]
fn connect_twice_is_refused() {
    let mut reg = ClientRegistry::new();
    let ack = reg.connect("echo", ready_client()).unwrap();
    assert_eq!(ack, "Connected to MCP server: echo");
    let again = reg.connect("echo", ready_client());
    assert!(matches!(again, Err(ClientError::AlreadyConnected)));
    // Exactly one live client remains bound to the name.
    let names = reg.list_connected();
    assert_eq!(names, vec![String::from("echo")]);
}

#[test]
fn disconnect_unknown_name_is_refused() {
    let mut reg = ClientRegistry::new();
    let r = reg.disconnect("never-connected");
    assert!(matches!(r, Err(ClientError::NotConnected)));
    assert!(reg.list_connected().is_empty());
}

#[test]
fn operations_on_unknown_name_are_refused() {
    let mut reg = ClientRegistry::new();
    assert!(matches!(reg.list_tools("x"), Err(ClientError::NotConnected)));
    assert!(matches!(reg.call_tool("x", "echo", "{}"), Err(ClientError::NotConnected)));
    assert!(matches!(reg.list_resources("x"), Err(ClientError::NotConnected)));
    assert!(matches!(reg.read_resource("x", "file:///y"), Err(ClientError::NotConnected)));
}

#[test]
fn operations_before_handshake_are_not_initialized() {
    let mut reg = ClientRegistry::new();
    // A client whose handshake never completed; the registry itself only ever
    // installs ready clients, but the refusal is the client's own.
    reg.connect("cold", MCPClient::new()).unwrap();
    assert!(matches!(reg.list_tools("cold"), Err(ClientError::NotInitialized)));
    assert!(matches!(reg.read_resource("cold", "u"), Err(ClientError::NotInitialized)));
}

#[test]
fn routed_requests_share_one_counter() {
    let mut reg = ClientRegistry::new();
    reg.connect("echo", ready_client()).unwrap();
    let l2 = reg.list_tools("echo").unwrap();
    assert!(l2.contains("\"id\":2"));
    let l3 = reg.call_tool("echo", "echo", "{\"text\":\"hi\"}").unwrap();
    assert!(l3.contains("\"id\":3"));
    let l4 = reg.list_resources("echo").unwrap();
    assert!(l4.contains("\"id\":4"));
    let l5 = reg.read_resource("echo", "file:///a").unwrap();
    assert!(l5.contains("\"id\":5"));
}

#[test]
fn echo_server_round_trip() {
    // The full life of one well-behaved connection, with the peer's reply
    // lines fed in as a spawned echo server would write them.
    let mut reg = ClientRegistry::new();
    reg.connect("echo", ready_client()).unwrap();

    let request = reg.list_tools("echo").unwrap();
    assert_eq!(request, "{\"jsonrpc\":\"2.0\",\"id\":2,\"method\":\"tools/list\"}");
    let reply = "{\"jsonrpc\":\"2.0\",\"id\":2,\"result\":{\"tools\":[{\"name\":\"echo\"}]}}\n";
    let tools = classify_response(reply.len(), reply).unwrap();
    assert_eq!(
        tools["result"]["tools"][0]["name"].as_str(),
        Some("echo")
    );

    let request = reg.call_tool("echo", "echo", "{\"text\":\"hi\"}").unwrap();
    assert!(request.contains("\"method\":\"tools/call\""));
    let reply =
        "{\"jsonrpc\":\"2.0\",\"id\":3,\"result\":{\"content\":[{\"type\":\"text\",\"text\":\"hi\"}]}}\n";
    let outcome = classify_response(reply.len(), reply).unwrap();
    assert_eq!(
        outcome["result"]["content"][0]["text"].as_str(),
        Some("hi")
    );

    let (mut client, ack) = reg.disconnect("echo").unwrap();
    assert_eq!(ack, "Disconnected MCP server: echo");
    let shutdown_line = client.shutdown();
    assert_eq!(
        shutdown_line.as_deref(),
        Some("{\"jsonrpc\":\"2.0\",\"id\":4,\"method\":\"shutdown\"}")
    );
    client.confirm_killed();
    assert!(matches!(client.phase, Phase::Terminated));
    assert!(reg.list_connected().is_empty());
}

#[test]
fn failed_spawn_leaves_no_registration() {
    // A spawn failure surfaces before anything is installed: the host never
    // reaches `connect`, and the registry stays empty.
    let mut reg = ClientRegistry::new();
    let spawn_outcome: Result<MCPClient, ClientError> =
        Err(ClientError::SpawnError(String::from("No such file or directory")));
    if let Ok(client) = spawn_outcome {
        reg.connect("x", client).unwrap();
    }
    assert!(reg.list_connected().is_empty());
    assert!(!reg.contains("x"));
}

#[test]
fn disconnect_terminates_even_when_the_peer_ignores_shutdown() {
    let mut reg = ClientRegistry::new();
    reg.connect("stubborn", ready_client()).unwrap();
    let (mut client, _ack) = reg.disconnect("stubborn").unwrap();
    let line = client.shutdown();
    assert!(line.is_some());
    // The peer never answers the best-effort request; the reply read reports
    // a closed stream. That outcome is ignored and the kill is unconditional.
    let reply = classify_response(0, "");
    assert!(matches!(reply, Err(ClientError::ConnectionClosed)));
    client.confirm_killed();
    assert!(matches!(client.phase, Phase::Terminated));
    assert!(!reg.contains("stubborn"));
}

#[test]
fn test_env_vars() {
    let mut env = HashMap::new();
    env.insert("TEST_KEY".to_string(), "test_value".to_string());

    println!("Environment variables test: {:?}", env.keys().collect::<Vec<_>>());

    // This should compile without issues
    assert_eq!(env.len(), 1);
    assert!(env.contains_key("TEST_KEY"));
}

#[test]
fn test_basic_functionality() {
    println!("Basic test passed");
}

#[test]
fn reconnect_after_disconnect_succeeds() {
    let mut reg = ClientRegistry::new();
    reg.connect("echo", ready_client()).unwrap();
    assert!(reg.contains("echo"));
    let (_client, _ack) = reg.disconnect("echo").unwrap();
    assert!(!reg.contains("echo"));
    // With the binding undone the name is free again.
    let ack = reg.connect("echo", ready_client()).unwrap();
    assert_eq!(ack, "Connected to MCP server: echo");
    assert_eq!(reg.list_connected(), vec![String::from("echo")]);
}
