use hardlight::server_loop::{InFlight, Poll, ServerAction, ServerConnection, ServerEvent};
use hardlight::{ClientMessage, RpcHandlerError, ServerMessage};

/// A connection whose handshake has succeeded.
fn established() -> ServerConnection {
    let mut connection = ServerConnection::new();
    assert_eq!(connection.step(ServerEvent::TlsAccepted), ServerAction::Upgrade);
    assert_eq!(connection.step(ServerEvent::Upgraded), ServerAction::Select);
    connection
}

fn request(id: u8, internal: &[u8]) -> ServerEvent {
    ServerEvent::Message(ClientMessage::RPCRequest { id, internal: internal.to_vec() })
}

fn spawn(id: u8, internal: &[u8]) -> ServerAction {
    ServerAction::Spawn { id, internal: internal.to_vec() }
}

fn event(bytes: &[u8]) -> ServerEvent {
    ServerEvent::Polled(Poll::Event(bytes.to_vec()))
}

fn new_event(bytes: &[u8]) -> ServerAction {
    ServerAction::Send(ServerMessage::NewEvent { event: bytes.to_vec() })
}

/// A connection with this many subscriptions, waiting.
fn with_subscriptions(count: usize) -> ServerConnection {
    let mut connection = established();
    for n in 0..count {
        assert_eq!(
            connection.step(ServerEvent::Subscribe("t".into())),
            ServerAction::Subscribe("t".into())
        );
        let mut action = connection.step(ServerEvent::Subscribed);
        for k in 0..=n {
            assert_eq!(action, ServerAction::Poll(k));
            action = connection.step(ServerEvent::Polled(Poll::Empty));
        }
        assert_eq!(action, ServerAction::Select);
    }
    connection
}

#[test]
fn a_request_is_handled_and_its_output_sent() {
    let mut connection = established();
    assert_eq!(connection.step(request(7, b"call")), spawn(7, b"call"));
    assert_eq!(connection.step(ServerEvent::Spawned), ServerAction::Select);
    assert_eq!(
        connection.step(ServerEvent::Finished { id: 7, output: Ok(vec![1, 2]) }),
        ServerAction::Send(ServerMessage::RPCResponse { id: 7, output: Ok(vec![1, 2]) })
    );
    assert_eq!(connection.step(ServerEvent::Sent), ServerAction::Select);
}

#[test]
fn a_request_in_flight_is_ignored_until_it_is_finished() {
    let mut connection = established();
    connection.step(request(7, b"first"));
    connection.step(ServerEvent::Spawned);
    assert_eq!(connection.step(request(7, b"second")), ServerAction::Select);
    assert_eq!(connection.step(request(8, b"other")), spawn(8, b"other"));
    connection.step(ServerEvent::Spawned);
    connection.step(ServerEvent::Finished { id: 7, output: Ok(vec![]) });
    connection.step(ServerEvent::Sent);
    assert_eq!(connection.step(request(7, b"third")), spawn(7, b"third"));
    connection.step(ServerEvent::Spawned);
    assert_eq!(connection.step(request(8, b"again")), ServerAction::Select);
}

#[test]
fn an_error_is_sent_as_the_output() {
    let mut connection = established();
    connection.step(request(0, b""));
    connection.step(ServerEvent::Spawned);
    let output = Err(RpcHandlerError::BadInputBytes);
    assert_eq!(
        connection.step(ServerEvent::Finished { id: 0, output }),
        ServerAction::Send(ServerMessage::RPCResponse { id: 0, output: Err(RpcHandlerError::BadInputBytes) })
    );
    assert_eq!(connection.step(ServerEvent::Sent), ServerAction::Select);
}

#[test]
fn a_poisoned_state_closes_the_connection_once_the_client_is_told() {
    for report in [ServerEvent::Sent, ServerEvent::SendFailed] {
        let mut connection = established();
        connection.step(request(3, b""));
        connection.step(ServerEvent::Spawned);
        let poisoned = ServerEvent::Finished { id: 3, output: Err(RpcHandlerError::StatePoisoned) };
        assert_eq!(
            connection.step(poisoned),
            ServerAction::Send(ServerMessage::RPCResponse {
                id: 3,
                output: Err(RpcHandlerError::StatePoisoned)
            })
        );
        assert!(!connection.accepts(&request(4, b"")));
        assert_eq!(connection.step(report), ServerAction::Close);
        assert!(!connection.accepts(&request(4, b"")));
        assert!(!connection.accepts(&ServerEvent::Shutdown));
    }
}

#[test]
fn state_changes_are_sent() {
    let mut connection = established();
    assert_eq!(
        connection.step(ServerEvent::StateChanged(vec![(0, vec![5, 0, 0, 0])])),
        ServerAction::Send(ServerMessage::StateChange(vec![(0, vec![5, 0, 0, 0])]))
    );
    assert_eq!(connection.step(ServerEvent::SendFailed), ServerAction::Select);
}

#[test]
fn subscriptions_are_looked_at_after_each_event() {
    let mut connection = with_subscriptions(2);
    assert_eq!(connection.step(ServerEvent::NotBinary), ServerAction::Poll(0));
    assert_eq!(connection.step(event(b"a")), new_event(b"a"));
    assert_eq!(connection.step(ServerEvent::Sent), ServerAction::Poll(1));
    assert_eq!(connection.step(event(b"b")), new_event(b"b"));
    assert_eq!(connection.step(ServerEvent::SendFailed), ServerAction::Select);
    assert_eq!(connection.step(request(1, b"")), spawn(1, b""));
    assert_eq!(connection.step(ServerEvent::Spawned), ServerAction::Poll(0));
    assert_eq!(connection.step(ServerEvent::Polled(Poll::Closed)), ServerAction::Poll(1));
    assert_eq!(connection.step(ServerEvent::Polled(Poll::Empty)), ServerAction::Select);
}

#[test]
fn subscriptions_are_not_looked_at_after_a_failure() {
    let mut connection = with_subscriptions(1);
    assert_eq!(connection.step(ServerEvent::ReceiveFailed), ServerAction::Select);
    connection.step(request(1, b""));
    connection.step(ServerEvent::Spawned);
    connection.step(ServerEvent::Polled(Poll::Empty));
    assert_eq!(connection.step(request(1, b"")), ServerAction::Select);
    connection.step(ServerEvent::Finished { id: 1, output: Ok(vec![]) });
    assert_eq!(connection.step(ServerEvent::SendFailed), ServerAction::Select);
    connection.step(ServerEvent::StateChanged(vec![]));
    assert_eq!(connection.step(ServerEvent::Sent), ServerAction::Poll(0));
}

#[test]
fn a_failed_subscription_adds_none() {
    let mut connection = established();
    connection.step(ServerEvent::Subscribe("t".into()));
    assert_eq!(connection.step(ServerEvent::SubscribeFailed), ServerAction::Select);
    assert_eq!(connection.step(ServerEvent::NotBinary), ServerAction::Select);
}

#[test]
fn a_subscription_that_lags_is_not_accepted() {
    let mut connection = with_subscriptions(1);
    connection.step(ServerEvent::NotBinary);
    assert!(!connection.accepts(&ServerEvent::Polled(Poll::Lagged)));
    assert!(connection.accepts(&ServerEvent::Polled(Poll::Empty)));
    assert!(connection.accepts(&ServerEvent::Polled(Poll::Closed)));
    assert!(connection.accepts(&event(b"")));
}

#[test]
fn a_server_shutdown_closes_the_connection_for_good() {
    let mut connection = established();
    assert!(connection.accepts(&ServerEvent::Shutdown));
    assert_eq!(connection.step(ServerEvent::Shutdown), ServerAction::Close);
    assert!(!connection.accepts(&ServerEvent::Shutdown));
    assert!(!connection.accepts(&ServerEvent::NotBinary));
    assert!(!connection.accepts(&ServerEvent::Sent));
}

#[test]
fn events_are_accepted_only_when_they_can_happen() {
    let mut connection = established();
    assert!(!connection.accepts(&ServerEvent::Spawned));
    assert!(!connection.accepts(&ServerEvent::Sent));
    assert!(!connection.accepts(&ServerEvent::Subscribed));
    assert!(!connection.accepts(&ServerEvent::SubscribeFailed));
    assert!(!connection.accepts(&event(b"")));
    connection.step(request(1, b""));
    assert!(connection.accepts(&ServerEvent::Spawned));
    assert!(!connection.accepts(&request(2, b"")));
}

#[test]
fn calls_in_flight_are_a_set_of_ids() {
    let mut in_flight = InFlight::new();
    assert!(!in_flight.contains(0));
    in_flight.insert(0);
    in_flight.insert(255);
    assert!(in_flight.contains(0) && in_flight.contains(255) && !in_flight.contains(1));
    in_flight.remove(0);
    assert!(!in_flight.contains(0) && in_flight.contains(255));
}

#[test]
fn an_event_is_sent_while_nothing_else_happens() {
    let mut connection = with_subscriptions(2);
    let published = |subscription: usize, bytes: &[u8]| ServerEvent::Event { subscription, event: bytes.to_vec() };
    assert!(connection.accepts(&published(0, b"a")));
    assert!(connection.accepts(&published(1, b"a")));
    assert!(!connection.accepts(&published(2, b"a")));
    assert_eq!(connection.step(published(1, b"a")), new_event(b"a"));
    assert!(!connection.accepts(&published(1, b"b")));
    assert_eq!(connection.step(ServerEvent::Sent), ServerAction::Poll(0));
    connection.step(ServerEvent::Polled(Poll::Empty));
    assert_eq!(connection.step(ServerEvent::Polled(Poll::Empty)), ServerAction::Select);
    assert_eq!(connection.step(published(0, b"")), new_event(b""));
    assert_eq!(connection.step(ServerEvent::SendFailed), ServerAction::Select);
    assert!(!established().accepts(&published(0, b"a")));
}

#[test]
fn nothing_is_handled_before_the_handshake() {
    let mut connection = ServerConnection::new();
    assert!(!connection.accepts(&request(0, b"")));
    assert!(!connection.accepts(&ServerEvent::Upgraded));
    connection.step(ServerEvent::TlsAccepted);
    assert!(!connection.accepts(&request(0, b"")));
    assert!(!connection.accepts(&ServerEvent::TlsAccepted));
    connection.step(ServerEvent::Upgraded);
    assert!(connection.accepts(&request(0, b"")));
    assert!(!connection.accepts(&ServerEvent::TlsFailed));
    assert!(!connection.accepts(&ServerEvent::UpgradeRefused));
}

#[test]
fn a_failed_handshake_closes_the_connection() {
    let mut connection = ServerConnection::new();
    assert_eq!(connection.step(ServerEvent::TlsFailed), ServerAction::Close);
    assert!(!connection.accepts(&request(0, b"")));
    for failure in [ServerEvent::UpgradeRefused, ServerEvent::UpgradeFailed] {
        let mut connection = ServerConnection::new();
        connection.step(ServerEvent::TlsAccepted);
        assert!(connection.accepts(&failure));
        assert_eq!(connection.step(failure), ServerAction::Close);
        assert!(!connection.accepts(&request(0, b"")));
        assert!(!connection.accepts(&ServerEvent::Upgraded));
    }
}
