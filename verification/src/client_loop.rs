//! What a client does on an open connection: one event at a time, from the
//! application, from the server, or on the fate of what it sent.

use vstd::prelude::*;

use crate::calls::{a_new_id_is_free, at_most_256_calls, lowest_free, CallTable};
use crate::wire::{ClientMessage, HandlerResult, RpcHandlerError, ServerMessage};

verus! {

/// What came in on the connection.
#[derive(Debug, PartialEq, Eq)]
pub enum ClientFrame {
    /// Receiving failed.
    Failed,
    /// A frame that is not binary.
    NotBinary,
    /// A binary frame whose bytes are no message.
    Undecodable,
    /// A message.
    Message(ServerMessage),
}

/// What happens to a client on an open connection. `C` is what the application
/// waits on for the response to a call.
#[derive(Debug, PartialEq, Eq)]
pub enum ClientEvent<C> {
    /// The application makes a call.
    Call {
        /// The serialized call: the method and its arguments.
        internal: Vec<u8>,
        /// What the application waits on.
        completion: C,
    },
    /// The message to send was not serializable.
    EncodeFailed,
    /// The message was not sent.
    SendFailed,
    /// The message was sent.
    Sent,
    /// Something came in.
    Frame(ClientFrame),
    /// The application shuts the connection down.
    Shutdown,
}

/// What a client has to do about an event.
#[derive(Debug, PartialEq, Eq)]
pub enum ClientAction<C> {
    /// Wait for the next event.
    Wait,
    /// Send a message, and report what became of it.
    Send(ClientMessage),
    /// Give the application the output of a call.
    Complete {
        /// What the application waits on.
        completion: C,
        /// The output.
        output: HandlerResult<Vec<u8>>,
    },
    /// Apply changes to the connection state.
    Apply(Vec<(usize, Vec<u8>)>),
    /// Close the connection.
    Close,
}

/// The state of a client on a connection: the calls it waits for, by ID; the call
/// that it is sending, with its ID; and whether the connection is open.
#[verifier::ext_equal]
pub struct ClientModel<C> {
    pub active: Map<u8, C>,
    pub sending: Option<(u8, C)>,
    pub open: bool,
}

/// The state of a client on a new connection.
pub open spec fn client_start<C>() -> ClientModel<C> {
    ClientModel { active: Map::empty(), sending: None, open: true }
}

/// Whether an event can happen in a state: what became of a message is reported
/// exactly while one is being sent, and nothing else happens meanwhile.
pub open spec fn client_accepts<C>(s: ClientModel<C>, event: ClientEvent<C>) -> bool {
    &&& s.open
    &&& match event {
        ClientEvent::EncodeFailed | ClientEvent::SendFailed | ClientEvent::Sent => s.sending
            is Some,
        _ => s.sending is None,
    }
}

/// The state after an event, and what the client has to do about it.
pub open spec fn client_step<C>(s: ClientModel<C>, event: ClientEvent<C>) -> (
    ClientModel<C>,
    ClientAction<C>,
) {
    match event {
        ClientEvent::Call { internal, completion } => match lowest_free(s.active.dom(), 0) {
            Some(id) => (
                ClientModel { sending: Some((id, completion)), ..s },
                ClientAction::Send(ClientMessage::RPCRequest { id, internal }),
            ),
            None => (
                s,
                ClientAction::Complete {
                    completion,
                    output: Err(RpcHandlerError::TooManyCallsInFlight),
                },
            ),
        },
        ClientEvent::EncodeFailed => (
            ClientModel { sending: None, ..s },
            ClientAction::Complete {
                completion: (s.sending->0).1,
                output: Err(RpcHandlerError::BadInputBytes),
            },
        ),
        ClientEvent::SendFailed => (
            ClientModel { sending: None, ..s },
            ClientAction::Complete {
                completion: (s.sending->0).1,
                output: Err(RpcHandlerError::ClientNotConnected),
            },
        ),
        ClientEvent::Sent => (
            ClientModel {
                active: s.active.insert((s.sending->0).0, (s.sending->0).1),
                sending: None,
                ..s
            },
            ClientAction::Wait,
        ),
        ClientEvent::Frame(ClientFrame::Message(ServerMessage::RPCResponse { id, output })) => {
            if s.active.contains_key(id) {
                (
                    ClientModel { active: s.active.remove(id), ..s },
                    ClientAction::Complete { completion: s.active[id], output },
                )
            } else {
                (s, ClientAction::Wait)
            }
        },
        ClientEvent::Frame(ClientFrame::Message(ServerMessage::StateChange(changes))) => (
            s,
            ClientAction::Apply(changes),
        ),
        ClientEvent::Frame(_) => (s, ClientAction::Wait),
        ClientEvent::Shutdown => (ClientModel { open: false, ..s }, ClientAction::Close),
    }
}

/// A client's side of a connection.
pub struct ClientConnection<C> {
    calls: CallTable<C>,
    sending: Option<(u8, C)>,
    open: bool,
}

impl<C> View for ClientConnection<C> {
    type V = ClientModel<C>;

    closed spec fn view(&self) -> ClientModel<C> {
        ClientModel { active: self.calls@, sending: self.sending, open: self.open }
    }
}

impl<C> ClientConnection<C> {
    /// A new connection, with no call under way.
    pub fn new() -> (r: Self)
        ensures
            r@ == client_start::<C>(),
    {
        ClientConnection { calls: CallTable::new(), sending: None, open: true }
    }

    /// Whether an event can happen now.
    pub fn accepts(&self, event: &ClientEvent<C>) -> (r: bool)
        ensures
            r == client_accepts(self@, *event),
    {
        self.open && match event {
            ClientEvent::EncodeFailed | ClientEvent::SendFailed | ClientEvent::Sent => {
                self.sending.is_some()
            },
            _ => self.sending.is_none(),
        }
    }

    /// Takes an event, and says what to do about it.
    pub fn step(&mut self, event: ClientEvent<C>) -> (action: ClientAction<C>)
        requires
            client_accepts(old(self)@, event),
        ensures
            (final(self)@, action) == client_step(old(self)@, event),
    {
        match event {
            ClientEvent::Call { internal, completion } => {
                match self.calls.free_id() {
                    Some(id) => {
                        self.sending = Some((id, completion));
                        ClientAction::Send(ClientMessage::RPCRequest { id, internal })
                    },
                    None => ClientAction::Complete {
                        completion,
                        output: Err(RpcHandlerError::TooManyCallsInFlight),
                    },
                }
            },
            ClientEvent::EncodeFailed => {
                let (_, completion) = self.sending.take().unwrap();
                ClientAction::Complete { completion, output: Err(RpcHandlerError::BadInputBytes) }
            },
            ClientEvent::SendFailed => {
                let (_, completion) = self.sending.take().unwrap();
                ClientAction::Complete {
                    completion,
                    output: Err(RpcHandlerError::ClientNotConnected),
                }
            },
            ClientEvent::Sent => {
                let (id, completion) = self.sending.take().unwrap();
                self.calls.insert(id, completion);
                ClientAction::Wait
            },
            ClientEvent::Frame(ClientFrame::Message(message)) => match message {
                ServerMessage::RPCResponse { id, output } => {
                    proof {
                        let before = self.calls@;
                        assert(!before.contains_key(id) ==> before.remove(id) =~= before);
                    }
                    match self.calls.take(id) {
                        Some(completion) => ClientAction::Complete { completion, output },
                        None => ClientAction::Wait,
                    }
                },
                ServerMessage::StateChange(changes) => ClientAction::Apply(changes),
                ServerMessage::NewEvent { .. } => ClientAction::Wait,
            },
            ClientEvent::Frame(_) => ClientAction::Wait,
            ClientEvent::Shutdown => {
                self.open = false;
                ClientAction::Close
            },
        }
    }
}

/// A call is sent, under an ID that no call has that is waited for, exactly while fewer
/// than 256 calls are waited for. Otherwise the application is told that there are too
/// many, and nothing changes.
pub proof fn a_call_is_sent_unless_there_are_too_many<C>(
    s: ClientModel<C>,
    internal: Vec<u8>,
    completion: C,
)
    ensures
        ({
            let (after, action) = client_step(s, ClientEvent::Call { internal, completion });
            if s.active.dom().len() < 256 {
                exists|id: u8|
                    !s.active.contains_key(id) && action == ClientAction::<C>::Send(
                        ClientMessage::RPCRequest { id, internal },
                    ) && #[trigger] after.sending == Some((id, completion))
            } else {
                after == s && action == (ClientAction::Complete {
                    completion,
                    output: Err(RpcHandlerError::TooManyCallsInFlight),
                })
            }
        }),
{
    at_most_256_calls(s.active.dom());
    a_new_id_is_free(s.active.dom());
    let (after, _) = client_step(s, ClientEvent::Call { internal, completion });
    if s.active.dom().len() < 256 {
        let id = lowest_free(s.active.dom(), 0)->0;
        assert(after.sending == Some((id, completion)));
    }
}

/// Once a call is completed its ID is free again, and the other calls are still waited
/// for.
pub proof fn a_completed_id_is_free_again<C>(
    s: ClientModel<C>,
    id: u8,
    output: HandlerResult<Vec<u8>>,
)
    requires
        s.active.contains_key(id),
    ensures
        ({
            let response = ServerMessage::RPCResponse { id, output };
            let after = client_step(
                s,
                ClientEvent::Frame(ClientFrame::Message(response)),
            ).0;
            &&& !after.active.contains_key(id)
            &&& lowest_free(after.active.dom(), 0) is Some
            &&& after.active == s.active.remove(id)
        }),
{
    let after = s.active.remove(id);
    a_new_id_is_free(after.dom());
    assert(!after.dom().contains(id));
}

/// A response to a call that is not waited for changes nothing.
pub proof fn an_unknown_response_is_ignored<C>(
    s: ClientModel<C>,
    id: u8,
    output: HandlerResult<Vec<u8>>,
)
    requires
        !s.active.contains_key(id),
    ensures
        ({
            let response = ServerMessage::RPCResponse { id, output };
            client_step(s, ClientEvent::Frame(ClientFrame::Message(response))) == (
                s,
                ClientAction::<C>::Wait,
            )
        }),
{
}

/// After the shutdown nothing happens any more.
pub proof fn a_shutdown_is_final<C>(s: ClientModel<C>, event: ClientEvent<C>)
    ensures
        !client_accepts(client_step(s, ClientEvent::Shutdown).0, event),
{
}

/// Each state change that the client receives is applied: whatever the changes are, exactly
/// those are applied, and the calls that are under way stay as they are.
pub proof fn every_state_change_is_applied<C>(s: ClientModel<C>, changes: Vec<(usize, Vec<u8>)>)
    ensures
        ({
            let frame = ClientFrame::Message(ServerMessage::StateChange(changes));
            let (after, action) = client_step(s, ClientEvent::Frame(frame));
            &&& action == ClientAction::<C>::Apply(changes)
            &&& after == s
            &&& s.open && s.sending is None ==> client_accepts(s, ClientEvent::Frame(frame))
        }),
{
}

/// Nothing but a state change from the server has changes applied.
pub proof fn only_a_state_change_is_applied<C>(s: ClientModel<C>, event: ClientEvent<C>)
    ensures
        client_step(s, event).1 is Apply <==> event is Frame && event->Frame_0 is Message
            && event->Frame_0->Message_0 is StateChange,
{
}

/// The application that waits for a call is given the output that comes in under the call's
/// ID, whatever it is. The call is no longer waited for; the others are, each with what its
/// application waits on.
pub proof fn every_response_completes_its_call<C>(
    s: ClientModel<C>,
    id: u8,
    output: HandlerResult<Vec<u8>>,
)
    requires
        s.active.contains_key(id),
    ensures
        ({
            let response = ServerMessage::RPCResponse { id, output };
            let (after, action) = client_step(
                s,
                ClientEvent::Frame(ClientFrame::Message(response)),
            );
            &&& action == (ClientAction::Complete { completion: s.active[id], output })
            &&& !after.active.contains_key(id)
            &&& forall|other: u8|
                other != id ==> {
                    &&& #[trigger] after.active.contains_key(other) == s.active.contains_key(other)
                    &&& s.active.contains_key(other) ==> after.active[other] == s.active[other]
                }
            &&& after.sending == s.sending
            &&& after.open == s.open
        }),
{
}

/// A call that was sent is waited for under the ID that it was sent with, and one that could
/// not be serialized or sent is not, and its application is told why. The calls that were
/// waited for still are.
pub proof fn a_call_is_waited_for_once_it_is_sent<C>(s: ClientModel<C>, id: u8, completion: C)
    requires
        s.sending == Some((id, completion)),
    ensures
        ({
            let (sent, action) = client_step(s, ClientEvent::Sent);
            &&& action == ClientAction::<C>::Wait
            &&& sent.active.contains_key(id) && sent.active[id] == completion
            &&& forall|other: u8|
                other != id ==> {
                    &&& #[trigger] sent.active.contains_key(other) == s.active.contains_key(other)
                    &&& s.active.contains_key(other) ==> sent.active[other] == s.active[other]
                }
            &&& sent.sending is None
            &&& sent.open == s.open
        }),
        ({
            let (unsent, action) = client_step(s, ClientEvent::SendFailed);
            &&& action == (ClientAction::Complete {
                completion,
                output: Err(RpcHandlerError::ClientNotConnected),
            })
            &&& unsent.active == s.active
            &&& unsent.sending is None
            &&& unsent.open == s.open
        }),
        ({
            let (unsent, action) = client_step(s, ClientEvent::EncodeFailed);
            &&& action == (ClientAction::Complete {
                completion,
                output: Err(RpcHandlerError::BadInputBytes),
            })
            &&& unsent.active == s.active
            &&& unsent.sending is None
            &&& unsent.open == s.open
        }),
        s.open ==> client_accepts(s, ClientEvent::Sent) && client_accepts(
            s,
            ClientEvent::SendFailed,
        ) && client_accepts(s, ClientEvent::EncodeFailed),
{
}

/// Making a call changes nothing about the calls that are waited for.
pub proof fn a_new_call_leaves_the_others<C>(s: ClientModel<C>, internal: Vec<u8>, completion: C)
    ensures
        ({
            let after = client_step(s, ClientEvent::Call { internal, completion }).0;
            after.active == s.active && after.open == s.open
        }),
        s.open && s.sending is None ==> client_accepts(
            s,
            ClientEvent::Call { internal, completion },
        ),
{
}

/// A frame that could not be received, is not binary or is no message, and an event of a
/// topic, are passed over.
pub proof fn other_frames_are_passed_over<C>(s: ClientModel<C>, frame: ClientFrame)
    requires
        frame !is Message || frame->Message_0 is NewEvent,
    ensures
        client_step(s, ClientEvent::Frame(frame)) == (s, ClientAction::<C>::Wait),
{
}

/// A new connection is open, no call is under way on it, and the application can make one. The
/// shutdown closes it.
pub proof fn a_new_connection_is_open<C>(internal: Vec<u8>, completion: C)
    ensures
        client_start::<C>().active.dom().len() == 0,
        client_accepts(client_start::<C>(), ClientEvent::Call { internal, completion }),
        client_accepts(client_start::<C>(), ClientEvent::Shutdown),
        client_step(client_start::<C>(), ClientEvent::Shutdown).1 == ClientAction::<C>::Close,
{
}

/// On an open connection a client hears what became of a message exactly while it is sending
/// one, and everything else exactly while it is not. On a closed one it hears nothing.
pub proof fn a_client_hears_of_its_message_first<C>(s: ClientModel<C>, event: ClientEvent<C>)
    ensures
        event is EncodeFailed || event is SendFailed || event is Sent ==> (client_accepts(s, event)
            <==> s.open && s.sending is Some),
        event is Call || event is Frame || event is Shutdown ==> (client_accepts(s, event)
            <==> s.open && s.sending is None),
{
}

}
