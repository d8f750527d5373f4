use std::collections::VecDeque;

use hardlight::client_loop::{ClientAction, ClientConnection, ClientEvent, ClientFrame};
use hardlight::counter::{read_number, Handler, RpcCall, State};
use hardlight::server_loop::{ServerAction, ServerConnection, ServerEvent};
use hardlight::{Client, ClientMessage, RpcHandlerError, ServerMessage};

/// A connection whose handshake has succeeded.
fn established() -> ServerConnection {
    let mut connection = ServerConnection::new();
    connection.step(ServerEvent::TlsAccepted);
    connection.step(ServerEvent::Upgraded);
    connection
}

/// A client and a server of the counter service, with queues between them.
struct Pair {
    client: Client<State>,
    connection: ClientConnection<u32>,
    server: ServerConnection,
    handler: Handler,
    requests: VecDeque<ClientMessage>,
    responses: VecDeque<ServerMessage>,
    spawned: VecDeque<(u8, Vec<u8>)>,
    completed: Vec<(u32, Result<Vec<u8>, RpcHandlerError>)>,
}

fn encode(call: RpcCall) -> Vec<u8> {
    match call {
        RpcCall::Increment { amount } => vec![0, amount as u8],
        RpcCall::Decrement { amount } => vec![1, amount as u8],
        RpcCall::Get => vec![2],
        RpcCall::TestOverhead => vec![3],
    }
}

fn decode(bytes: &[u8]) -> Option<RpcCall> {
    match bytes {
        [0, amount] => Some(RpcCall::Increment { amount: *amount as u32 }),
        [1, amount] => Some(RpcCall::Decrement { amount: *amount as u32 }),
        [2] => Some(RpcCall::Get),
        [3] => Some(RpcCall::TestOverhead),
        _ => None,
    }
}

impl Pair {
    fn new() -> Self {
        Pair {
            client: Client::new_self_signed("localhost:8080"),
            connection: ClientConnection::new(),
            server: established(),
            handler: Handler::new(),
            requests: VecDeque::new(),
            responses: VecDeque::new(),
            spawned: VecDeque::new(),
            completed: Vec::new(),
        }
    }

    fn on_client(&mut self, event: ClientEvent<u32>) {
        assert!(self.connection.accepts(&event));
        match self.client.on_event(&mut self.connection, event) {
            ClientAction::Send(message) => {
                self.requests.push_back(message);
                self.on_client(ClientEvent::Sent);
            }
            ClientAction::Complete { completion, output } => self.completed.push((completion, output)),
            ClientAction::Wait | ClientAction::Close => {}
            ClientAction::Apply(_) => unreachable!(),
        }
    }

    fn on_server(&mut self, event: ServerEvent) {
        assert!(self.server.accepts(&event));
        match self.server.step(event) {
            ServerAction::Spawn { id, internal } => {
                self.spawned.push_back((id, internal));
                self.on_server(ServerEvent::Spawned);
            }
            ServerAction::Send(message) => {
                self.responses.push_back(message);
                self.on_server(ServerEvent::Sent);
            }
            ServerAction::Select => {}
            _ => unreachable!(),
        }
    }

    fn call(&mut self, completion: u32, internal: Vec<u8>) {
        self.on_client(ClientEvent::Call { internal, completion });
    }

    /// Carries everything that is under way to its end. The handler takes the calls in
    /// the order they came, or in the reverse order.
    fn settle(&mut self, in_reverse: bool) {
        while let Some(message) = self.requests.pop_front() {
            self.on_server(ServerEvent::Message(message));
        }
        loop {
            let next = if in_reverse { self.spawned.pop_back() } else { self.spawned.pop_front() };
            let (id, internal) = match next {
                Some(call) => call,
                None => break,
            };
            let output = self.handler.handle_rpc_call(decode(&internal));
            for changes in std::mem::take(&mut self.handler.updates) {
                self.on_server(ServerEvent::StateChanged(changes));
            }
            self.on_server(ServerEvent::Finished { id, output });
        }
        while let Some(message) = self.responses.pop_front() {
            self.on_client(ClientEvent::Frame(ClientFrame::Message(message)));
        }
    }
}

#[test]
fn every_call_gets_its_own_response() {
    let mut pair = Pair::new();
    for n in 0..100 {
        pair.call(n, encode(RpcCall::Increment { amount: 1 }));
    }
    pair.settle(true);
    assert_eq!(pair.completed.len(), 100);
    // The call that was sent last was handled first.
    for (completion, output) in pair.completed.drain(..) {
        assert_eq!(read_number(output), Ok(100 - completion));
    }
    assert_eq!(pair.client.state.counter, 100);
}

#[test]
fn the_clients_state_follows_the_handlers() {
    let mut pair = Pair::new();
    for (call, expected) in [
        (RpcCall::Increment { amount: 200 }, 200),
        (RpcCall::Decrement { amount: 50 }, 150),
        (RpcCall::Get, 150),
        (RpcCall::TestOverhead, 150),
        (RpcCall::Increment { amount: 255 }, 405),
    ] {
        pair.call(0, encode(call));
        pair.settle(false);
        assert_eq!(pair.client.state.counter, expected);
        assert_eq!(pair.handler.state.counter, expected);
    }
}

#[test]
fn calls_past_256_are_refused_and_the_others_succeed() {
    let mut pair = Pair::new();
    for n in 0..260 {
        pair.call(n, encode(RpcCall::Get));
    }
    assert_eq!(
        pair.completed,
        vec![
            (256, Err(RpcHandlerError::TooManyCallsInFlight)),
            (257, Err(RpcHandlerError::TooManyCallsInFlight)),
            (258, Err(RpcHandlerError::TooManyCallsInFlight)),
            (259, Err(RpcHandlerError::TooManyCallsInFlight)),
        ]
    );
    pair.settle(false);
    assert_eq!(pair.completed.len(), 260);
    pair.completed.clear();
    pair.call(300, encode(RpcCall::Get));
    pair.settle(false);
    assert_eq!(pair.completed, vec![(300, Ok(vec![0, 0, 0, 0]))]);
}

#[test]
fn a_call_that_is_none_gets_an_error_back() {
    let mut pair = Pair::new();
    pair.call(1, vec![9, 9, 9]);
    pair.settle(false);
    assert_eq!(pair.completed, vec![(1, Err(RpcHandlerError::BadInputBytes))]);
}
