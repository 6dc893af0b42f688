use test_harness::server::{ConnectError, FakeServer, Message, ReceiveError};

const PING: u64 = 1;
const PING_RESPONSE: u64 = 2;

fn message(kind: u64, body: &str) -> Message {
    Message { kind, body: body.to_string() }
}

#[test]
fn authenticate_and_connect_binds_the_client_token() {
    let mut server = FakeServer::for_client(42);
    let result = server.authenticate_and_connect(777, false);
    assert!(result.is_ok());
    // a later reconnection with that token succeeds: the session token stuck
    let id = server.connection_id();
    let again = server.authenticate_and_connect(777, true);
    assert_eq!(again, Ok(id));
}

#[test]
fn forbid_new_connections_denies_until_allowed() {
    let mut server = FakeServer::for_client(1);
    server.forbid_new_connections();
    let denied = server.authenticate_and_connect(5, false);
    assert_eq!(denied, Err(ConnectError::NewConnectionsForbidden));
    assert_eq!(denied.unwrap_err().message(), "server is forbidding connections");
    server.allow_new_connections();
    assert!(server.authenticate_and_connect(5, false).is_ok());
}

#[test]
fn reconnect_after_kill_preserves_the_connection_id() {
    let mut server = FakeServer::for_client(1);
    server.authenticate_and_connect(99, false).unwrap();
    let id = server.connection_id();
    server.kill_connection();
    let reconnected = server.authenticate_and_connect(99, true);
    assert_eq!(reconnected, Ok(id));
    assert_eq!(server.connection_id(), id);
}

#[test]
fn reconnect_with_wrong_token_fails() {
    let mut server = FakeServer::for_client(1);
    server.authenticate_and_connect(99, false).unwrap();
    server.kill_connection();
    let denied = server.authenticate_and_connect(98, true);
    assert_eq!(denied, Err(ConnectError::CannotReestablish));
    assert_eq!(denied.unwrap_err().message(), "cannot re-establish connection");
}

#[test]
fn forbidden_reconnection_after_kill() {
    let mut server = FakeServer::for_client(7);
    server.authenticate_and_connect(11, false).unwrap();
    server.forbid_reconnections();
    server.kill_connection();
    let denied = server.authenticate_and_connect(11, true);
    assert_eq!(denied, Err(ConnectError::ReconnectionsForbidden));
    assert_eq!(denied.unwrap_err().message(), "server is forbidding reconnections");
    server.allow_reconnections();
    assert!(server.authenticate_and_connect(11, true).is_ok());
}

#[test]
fn reconnect_after_disconnect_fails() {
    let mut server = FakeServer::for_client(7);
    server.authenticate_and_connect(11, false).unwrap();
    server.disconnect();
    let denied = server.authenticate_and_connect(11, true);
    assert_eq!(denied, Err(ConnectError::CannotReestablish));
    assert_eq!(denied.unwrap_err().message(), "cannot re-establish connection");
    // a fresh connection resumes the cycle, with a new id
    assert!(server.authenticate_and_connect(11, false).is_ok());
}

#[test]
fn fresh_connection_gets_a_new_id() {
    let mut server = FakeServer::for_client(7);
    let first = server.authenticate_and_connect(1, false).unwrap();
    server.disconnect();
    let second = server.authenticate_and_connect(2, false).unwrap();
    assert_ne!(first, second);
}

#[test]
fn ping_round_trip() {
    // Server bound to client 42: authenticate, server sends Ping, the client
    // observes it and replies, the server receives the typed response.
    let mut server = FakeServer::for_client(42);
    server.authenticate_and_connect(3, false).unwrap();
    server.send(message(PING, "ping"));
    let seen = server.client_receive().unwrap();
    assert_eq!(seen.payload, message(PING, "ping"));
    server.client_send(Some(seen.message_id), message(PING_RESPONSE, "pong"));
    let reply = server.receive(PING_RESPONSE).unwrap();
    assert_eq!(reply.payload, message(PING_RESPONSE, "pong"));
    assert_eq!(reply.responding_to, Some(seen.message_id));
}

#[test]
fn send_then_receive_preserves_the_payload() {
    let mut server = FakeServer::for_client(8);
    server.authenticate_and_connect(1, false).unwrap();
    let payload = message(PING, "a very specific body");
    server.send(payload.clone());
    let envelope = server.client_receive().unwrap();
    assert_eq!(envelope.payload, payload);
}

#[test]
fn respond_addresses_the_request() {
    let mut server = FakeServer::for_client(8);
    server.authenticate_and_connect(1, false).unwrap();
    server.client_send(None, message(PING, "request"));
    let request = server.receive(PING).unwrap();
    server.respond(
        test_harness::server::Receipt { message_id: request.message_id },
        message(PING_RESPONSE, "answer"),
    );
    let answer = server.client_receive().unwrap();
    assert_eq!(answer.responding_to, Some(request.message_id));
    assert_eq!(answer.payload, message(PING_RESPONSE, "answer"));
}

#[test]
fn killed_transport_hangs_up() {
    let mut server = FakeServer::for_client(8);
    server.authenticate_and_connect(1, false).unwrap();
    server.kill_connection();
    let read = server.client_receive();
    assert_eq!(read, Err(ReceiveError::HungUp));
    assert_eq!(read.unwrap_err().message(), "other half hung up");
    let server_read = server.receive(PING);
    assert_eq!(server_read, Err(ReceiveError::HungUp));
}

#[test]
fn unexpected_message_kind_is_reported() {
    let mut server = FakeServer::for_client(8);
    server.authenticate_and_connect(1, false).unwrap();
    server.client_send(None, message(5, "surprise"));
    let got = server.receive(6);
    assert_eq!(got, Err(ReceiveError::UnexpectedKind { kind: 5 }));
}

#[test]
fn reconnection_clears_the_client_bound_queue() {
    let mut server = FakeServer::for_client(8);
    server.authenticate_and_connect(4, false).unwrap();
    server.send(message(PING, "lost in transit"));
    server.kill_connection();
    server.authenticate_and_connect(4, true).unwrap();
    // the fresh transport starts empty and alive: a new send flows again
    server.send(message(PING, "after reconnect"));
    let envelope = server.client_receive().unwrap();
    assert_eq!(envelope.payload, message(PING, "after reconnect"));
}
