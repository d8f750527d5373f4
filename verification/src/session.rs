//! A client and a server at the two ends of a connection: every call is handled, and
//! every response finds the call that it responds to.

use vstd::prelude::*;

use crate::calls::a_new_id_is_free;
use crate::client_loop::{
    client_accepts, client_start, client_step, ClientAction, ClientEvent, ClientFrame, ClientModel,
};
use crate::server_loop::{
    server_accepts, server_start, server_step, ServerAction, ServerEvent, ServerModel,
};
use crate::wire::{ClientMessage, HandlerResult, ServerMessage};

verus! {

/// A client, a server, and the messages between them, oldest first. A message that is
/// sent arrives, after those that were sent before it; a message whose sending failed
/// does not. Of the call with an ID, `sent` has what the client sent last, and `outputs`
/// what the handler gave for it.
#[verifier::ext_equal]
pub struct Session<C> {
    pub client: ClientModel<C>,
    pub server: ServerModel,
    /// What the client is sending.
    pub asking: Option<ClientMessage>,
    /// What the client has sent and the server has not received.
    pub requests: Seq<ClientMessage>,
    /// What the server is sending.
    pub replying: Option<ServerMessage>,
    /// What the server has sent and the client has not received.
    pub responses: Seq<ServerMessage>,
    pub sent: Map<u8, Vec<u8>>,
    pub outputs: Map<u8, HandlerResult<Vec<u8>>>,
}

/// What happens in a session.
pub enum SessionEvent<C> {
    /// Something happens to the client.
    Client(ClientEvent<C>),
    /// Something happens to the server.
    Server(ServerEvent),
}

/// A new session.
pub open spec fn session_start<C>() -> Session<C> {
    Session {
        client: client_start(),
        server: server_start(),
        asking: None,
        requests: seq![],
        replying: None,
        responses: seq![],
        sent: Map::empty(),
        outputs: Map::empty(),
    }
}

/// Whether an event can happen in a session. Each end receives the oldest message of
/// the other, and the handler finishes a call that it was given.
pub open spec fn session_accepts<C>(s: Session<C>, event: SessionEvent<C>) -> bool {
    match event {
        SessionEvent::Client(event) => client_accepts(s.client, event) && match event {
            ClientEvent::Frame(ClientFrame::Message(message)) => s.responses.len() > 0
                && s.responses[0] == message,
            _ => true,
        },
        SessionEvent::Server(event) => server_accepts(s.server, event) && match event {
            ServerEvent::Message(message) => s.requests.len() > 0 && s.requests[0] == message,
            ServerEvent::Finished { id, .. } => s.server.in_flight.contains(id),
            _ => true,
        },
    }
}

/// The session after something happened to the client.
pub open spec fn after_client<C>(s: Session<C>, event: ClientEvent<C>) -> Session<C> {
    let (client, action) = client_step(s.client, event);
    let moved = Session { client, ..s };
    match event {
        ClientEvent::Call { .. } => match action {
            ClientAction::Send(message) => Session { asking: Some(message), ..moved },
            _ => moved,
        },
        ClientEvent::EncodeFailed | ClientEvent::SendFailed => Session { asking: None, ..moved },
        ClientEvent::Sent => match s.asking->0 {
            ClientMessage::RPCRequest { id, internal } => Session {
                asking: None,
                requests: s.requests.push(s.asking->0),
                sent: s.sent.insert(id, internal),
                outputs: s.outputs.remove(id),
                ..moved
            },
        },
        ClientEvent::Frame(ClientFrame::Message(_)) => Session {
            responses: s.responses.skip(1),
            ..moved
        },
        _ => moved,
    }
}

/// The session after something happened to the server.
pub open spec fn after_server<C>(s: Session<C>, event: ServerEvent) -> Session<C> {
    let (server, action) = server_step(s.server, event);
    let moved = Session {
        server,
        replying: match action {
            ServerAction::Send(message) => Some(message),
            _ => None,
        },
        ..s
    };
    match event {
        ServerEvent::Message(_) => Session { requests: s.requests.skip(1), ..moved },
        ServerEvent::Finished { id, output } => Session {
            outputs: s.outputs.insert(id, output),
            ..moved
        },
        ServerEvent::Sent => match s.replying {
            Some(message) => Session { responses: s.responses.push(message), ..moved },
            None => moved,
        },
        _ => moved,
    }
}

/// The session after an event.
pub open spec fn session_step<C>(s: Session<C>, event: SessionEvent<C>) -> Session<C> {
    match event {
        SessionEvent::Client(event) => after_client(s, event),
        SessionEvent::Server(event) => after_server(s, event),
    }
}

/// The ID of a request.
pub open spec fn request_id(message: ClientMessage) -> u8 {
    match message {
        ClientMessage::RPCRequest { id, .. } => id,
    }
}

/// What a request asks for.
pub open spec fn request_body(message: ClientMessage) -> Vec<u8> {
    match message {
        ClientMessage::RPCRequest { internal, .. } => internal,
    }
}

/// Whether a message is the response to the call with an ID.
pub open spec fn responds_to(message: ServerMessage, id: u8) -> bool {
    match message {
        ServerMessage::RPCResponse { id: other, .. } => other == id,
        _ => false,
    }
}

/// Whether a response is on its way that is right: to a call that the client waits for,
/// which is neither on its way to the server nor being handled there, and with what the
/// handler gave for that call.
pub open spec fn is_right<C>(s: Session<C>, message: ServerMessage) -> bool {
    match message {
        ServerMessage::RPCResponse { id, output } => {
            &&& s.client.active.contains_key(id)
            &&& !s.server.in_flight.contains(id)
            &&& forall|i: int| 0 <= i < s.requests.len() ==> request_id(#[trigger] s.requests[i]) != id
            &&& s.outputs.contains_key(id)
            &&& s.outputs[id] == output
        },
        _ => true,
    }
}

/// What holds throughout a session: the call that is being sent has an ID that no call
/// has that the client waits for, and a call that the client waits for is at most once
/// on its way to the server, being handled, being responded to, or on its way back.
pub open spec fn in_order<C>(s: Session<C>) -> bool {
    &&& match s.client.sending {
        Some((id, _)) => s.asking is Some && request_id(s.asking->0) == id
            && !s.client.active.contains_key(id),
        None => true,
    }
    &&& forall|i: int|
        0 <= i < s.requests.len() ==> {
            let id = request_id(#[trigger] s.requests[i]);
            &&& s.client.active.contains_key(id)
            &&& !s.server.in_flight.contains(id)
            &&& s.sent.contains_key(id)
            &&& s.sent[id] == request_body(s.requests[i])
        }
    &&& forall|i: int, j: int|
        0 <= i < j < s.requests.len() ==> request_id(#[trigger] s.requests[i]) != request_id(
            #[trigger] s.requests[j],
        )
    &&& forall|id: u8| #[trigger]
        s.server.in_flight.contains(id) ==> s.client.active.contains_key(id)
    &&& match s.replying {
        Some(message) => is_right(s, message) && forall|i: int, id: u8|
            0 <= i < s.responses.len() && responds_to(message, id) ==> !#[trigger] responds_to(
                s.responses[i],
                id,
            ),
        None => true,
    }
    &&& forall|i: int| 0 <= i < s.responses.len() ==> is_right(s, #[trigger] s.responses[i])
    &&& forall|i: int, j: int, id: u8|
        0 <= i < j < s.responses.len() && #[trigger] responds_to(s.responses[i], id)
            ==> !#[trigger] responds_to(s.responses[j], id)
}

/// A new session is in order.
pub proof fn session_starts_in_order<C>()
    ensures
        in_order(session_start::<C>()),
{
}

proof fn client_keeps_order<C>(s: Session<C>, event: ClientEvent<C>)
    requires
        in_order(s),
        session_accepts(s, SessionEvent::Client(event)),
    ensures
        in_order(after_client(s, event)),
{
    let after = after_client(s, event);
    assert(s.replying is Some ==> is_right(s, s.replying->0));
    match event {
        ClientEvent::Frame(ClientFrame::Message(message)) => {
            assert(is_right(s, s.responses[0]));
            if let ServerMessage::RPCResponse { id, .. } = message {
                assert(responds_to(s.responses[0], id));
                assert(s.replying is Some ==> !responds_to(s.replying->0, id));
                assert forall|i: int| 0 < i < s.responses.len() implies !responds_to(
                    #[trigger] s.responses[i],
                    id,
                ) by {}
            }
            assert forall|i: int| 0 <= i < after.responses.len() implies is_right(
                after,
                #[trigger] after.responses[i],
            ) by {
                assert(after.responses[i] == s.responses[i + 1]);
                assert(is_right(s, s.responses[i + 1]));
            }
        },
        _ => {
            a_new_id_is_free(s.client.active.dom());
            assert forall|i: int| 0 <= i < after.responses.len() implies is_right(
                after,
                #[trigger] after.responses[i],
            ) by {
                assert(is_right(s, s.responses[i]));
            }
        },
    }
}

proof fn server_keeps_order<C>(s: Session<C>, event: ServerEvent)
    requires
        in_order(s),
        session_accepts(s, SessionEvent::Server(event)),
    ensures
        in_order(after_server(s, event)),
{
}

/// A session stays in order, whatever happens.
pub proof fn session_stays_in_order<C>(s: Session<C>, event: SessionEvent<C>)
    requires
        in_order(s),
        session_accepts(s, event),
    ensures
        in_order(session_step(s, event)),
{
    match event {
        SessionEvent::Client(event) => client_keeps_order(s, event),
        SessionEvent::Server(event) => server_keeps_order(s, event),
    }
}

/// Every request that reaches the server is handled: the handler is given what the
/// client sent last under that ID, and no request is taken for one that is in flight.
pub proof fn every_request_is_handled<C>(s: Session<C>)
    requires
        in_order(s),
        s.requests.len() > 0,
    ensures
        server_step(s.server, ServerEvent::Message(s.requests[0])).1 == (ServerAction::Spawn {
            id: request_id(s.requests[0]),
            internal: s.sent[request_id(s.requests[0])],
        }),
{
}

/// Every response that reaches the client finds the call that it responds to: the
/// application that waits under that ID is given what the handler gave for it.
pub proof fn every_response_finds_its_call<C>(s: Session<C>, id: u8)
    requires
        in_order(s),
        s.responses.len() > 0,
        responds_to(s.responses[0], id),
    ensures
        s.client.active.contains_key(id),
        client_step(s.client, ClientEvent::Frame(ClientFrame::Message(s.responses[0]))).1 == (
        ClientAction::Complete { completion: s.client.active[id], output: s.outputs[id] }),
{
    assert(is_right(s, s.responses[0]));
}

/// A call that the client waits for is waited for, under the same ID, until its
/// response comes.
pub proof fn a_call_waits_for_its_response<C>(s: Session<C>, event: SessionEvent<C>, id: u8)
    requires
        in_order(s),
        session_accepts(s, event),
        s.client.active.contains_key(id),
    ensures
        ({
            ||| session_step(s, event).client.active.contains_key(id) && session_step(
                s,
                event,
            ).client.active[id] == s.client.active[id] && session_step(s, event).sent[id]
                == s.sent[id]
            ||| event == SessionEvent::Client(
                ClientEvent::<C>::Frame(ClientFrame::Message(s.responses[0])),
            ) && responds_to(s.responses[0], id)
        }),
{
}

}
