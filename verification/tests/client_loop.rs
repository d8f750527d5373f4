use hardlight::client_loop::{ClientAction, ClientConnection, ClientEvent, ClientFrame};
use hardlight::{ClientMessage, RpcHandlerError, ServerMessage};

fn call(internal: &[u8], completion: u32) -> ClientEvent<u32> {
    ClientEvent::Call { internal: internal.to_vec(), completion }
}

fn request(id: u8, internal: &[u8]) -> ClientAction<u32> {
    ClientAction::Send(ClientMessage::RPCRequest { id, internal: internal.to_vec() })
}

fn response(id: u8, output: Result<Vec<u8>, RpcHandlerError>) -> ClientEvent<u32> {
    ClientEvent::Frame(ClientFrame::Message(ServerMessage::RPCResponse { id, output }))
}

fn refusal(completion: u32, error: RpcHandlerError) -> ClientAction<u32> {
    ClientAction::Complete { completion, output: Err(error) }
}

/// A connection that waits for this many calls; the call with ID `n` completes `n`.
fn with_calls(count: u32) -> ClientConnection<u32> {
    let mut connection = ClientConnection::new();
    for n in 0..count {
        assert_eq!(connection.step(call(&[], n)), request(n as u8, &[]));
        assert_eq!(connection.step(ClientEvent::Sent), ClientAction::Wait);
    }
    connection
}

#[test]
fn a_call_is_sent_and_its_response_completes_it() {
    let mut connection = ClientConnection::new();
    assert_eq!(connection.step(call(b"one", 11)), request(0, b"one"));
    assert_eq!(connection.step(ClientEvent::Sent), ClientAction::Wait);
    assert_eq!(connection.step(call(b"two", 22)), request(1, b"two"));
    assert_eq!(connection.step(ClientEvent::Sent), ClientAction::Wait);
    assert_eq!(
        connection.step(response(1, Ok(vec![2]))),
        ClientAction::Complete { completion: 22, output: Ok(vec![2]) }
    );
    assert_eq!(
        connection.step(response(0, Err(RpcHandlerError::BadInputBytes))),
        refusal(11, RpcHandlerError::BadInputBytes)
    );
}

#[test]
fn a_call_that_is_not_serializable_is_refused() {
    let mut connection = ClientConnection::new();
    connection.step(call(b"x", 5));
    assert_eq!(
        connection.step(ClientEvent::EncodeFailed),
        refusal(5, RpcHandlerError::BadInputBytes)
    );
    assert_eq!(connection.step(call(b"y", 6)), request(0, b"y"));
}

#[test]
fn a_call_that_is_not_sent_is_refused() {
    let mut connection = ClientConnection::new();
    connection.step(call(b"x", 5));
    assert_eq!(
        connection.step(ClientEvent::SendFailed),
        refusal(5, RpcHandlerError::ClientNotConnected)
    );
    assert_eq!(connection.step(response(0, Ok(vec![]))), ClientAction::Wait);
    assert_eq!(connection.step(call(b"y", 6)), request(0, b"y"));
}

#[test]
fn the_call_after_256_is_refused() {
    let mut connection = with_calls(256);
    assert_eq!(
        connection.step(call(b"x", 1000)),
        refusal(1000, RpcHandlerError::TooManyCallsInFlight)
    );
    assert_eq!(
        connection.step(response(77, Ok(vec![1]))),
        ClientAction::Complete { completion: 77, output: Ok(vec![1]) }
    );
    assert_eq!(connection.step(call(b"x", 1000)), request(77, b"x"));
}

#[test]
fn the_id_of_a_completed_call_is_used_again() {
    let mut connection = with_calls(3);
    connection.step(response(1, Ok(vec![])));
    assert_eq!(connection.step(call(b"again", 9)), request(1, b"again"));
}

#[test]
fn a_response_to_no_call_is_ignored() {
    let mut connection = with_calls(1);
    assert_eq!(connection.step(response(1, Ok(vec![]))), ClientAction::Wait);
    connection.step(response(0, Ok(vec![])));
    assert_eq!(connection.step(response(0, Ok(vec![]))), ClientAction::Wait);
}

#[test]
fn state_changes_are_applied_and_events_ignored() {
    let mut connection: ClientConnection<u32> = ClientConnection::new();
    let changes = vec![(0, vec![1, 0, 0, 0]), (3, vec![])];
    assert_eq!(
        connection.step(ClientEvent::Frame(ClientFrame::Message(ServerMessage::StateChange(vec![
            (0, vec![1, 0, 0, 0]),
            (3, vec![])
        ])))),
        ClientAction::Apply(changes)
    );
    assert_eq!(
        connection.step(ClientEvent::Frame(ClientFrame::Message(ServerMessage::NewEvent {
            event: vec![1]
        }))),
        ClientAction::Wait
    );
}

#[test]
fn frames_that_are_no_message_are_ignored() {
    let mut connection = with_calls(1);
    for frame in [ClientFrame::Failed, ClientFrame::NotBinary, ClientFrame::Undecodable] {
        assert_eq!(connection.step(ClientEvent::Frame(frame)), ClientAction::Wait);
    }
    assert_eq!(
        connection.step(response(0, Ok(vec![]))),
        ClientAction::Complete { completion: 0, output: Ok(vec![]) }
    );
}

#[test]
fn a_shutdown_closes_the_connection_for_good() {
    let mut connection = with_calls(1);
    assert!(connection.accepts(&ClientEvent::Shutdown));
    assert_eq!(connection.step(ClientEvent::Shutdown), ClientAction::Close);
    assert!(!connection.accepts(&ClientEvent::Shutdown));
    assert!(!connection.accepts(&call(b"", 0)));
    assert!(!connection.accepts(&ClientEvent::Sent));
    assert!(!connection.accepts(&response(0, Ok(vec![]))));
}

#[test]
fn the_fate_of_a_message_is_reported_while_it_is_sent() {
    let mut connection = ClientConnection::new();
    assert!(!connection.accepts(&ClientEvent::Sent));
    assert!(!connection.accepts(&ClientEvent::SendFailed));
    assert!(!connection.accepts(&ClientEvent::EncodeFailed));
    assert!(connection.accepts(&call(b"", 0)));
    connection.step(call(b"", 0));
    assert!(connection.accepts(&ClientEvent::Sent));
    assert!(connection.accepts(&ClientEvent::SendFailed));
    assert!(connection.accepts(&ClientEvent::EncodeFailed));
    assert!(!connection.accepts(&call(b"", 0)));
    assert!(!connection.accepts(&ClientEvent::Shutdown));
}
