//! What a server does on an open connection: one event at a time, from the client, from
//! the handler, from a subscription, or on the fate of what it sent.

use vstd::prelude::*;

use crate::topic::Topic;
use crate::wire::{ClientMessage, HandlerResult, RpcHandlerError, ServerMessage};

verus! {

/// The IDs of the calls that a server is handling.
pub struct InFlight {
    flags: [bool; 256],
}

impl View for InFlight {
    type V = Set<u8>;

    closed spec fn view(&self) -> Set<u8> {
        Set::new(|id: u8| self.flags@[id as int])
    }
}

impl InFlight {
    /// No call is being handled.
    pub fn new() -> (r: Self)
        ensures
            r@ == Set::<u8>::empty(),
    {
        InFlight { flags: [false;256] }
    }

    /// Whether the call with an ID is being handled.
    pub fn contains(&self, id: u8) -> (r: bool)
        ensures
            r == self@.contains(id),
    {
        self.flags[id as usize]
    }

    /// The call with an ID is now being handled.
    pub fn insert(&mut self, id: u8)
        ensures
            final(self)@ == old(self)@.insert(id),
    {
        self.flags[id as usize] = true;
    }

    /// The call with an ID is no longer being handled.
    pub fn remove(&mut self, id: u8)
        ensures
            final(self)@ == old(self)@.remove(id),
    {
        self.flags[id as usize] = false;
    }
}

/// What a look at an event subscription found.
#[derive(Debug, PartialEq, Eq)]
pub enum Poll {
    /// An event.
    Event(Vec<u8>),
    /// No event.
    Empty,
    /// The subscription is closed.
    Closed,
    /// The subscription fell behind and lost events.
    Lagged,
}

/// What happens to a server on an open connection.
#[derive(Debug, PartialEq, Eq)]
pub enum ServerEvent {
    /// TLS was accepted.
    TlsAccepted,
    /// TLS was not accepted.
    TlsFailed,
    /// The client was answered with the server's protocol, and the connection is open.
    Upgraded,
    /// The client was answered that its request is not valid.
    UpgradeRefused,
    /// The client was not answered.
    UpgradeFailed,
    /// Receiving from the client failed.
    ReceiveFailed,
    /// The client sent a frame that is not binary.
    NotBinary,
    /// The client sent a message.
    Message(ClientMessage),
    /// The handler's task was spawned.
    Spawned,
    /// The handler finished a call.
    Finished {
        /// The ID of the call.
        id: u8,
        /// The output of the call.
        output: HandlerResult<Vec<u8>>,
    },
    /// The handler changed the connection state.
    StateChanged(Vec<(usize, Vec<u8>)>),
    /// The handler subscribes to a topic.
    Subscribe(Topic),
    /// The subscription was made.
    Subscribed,
    /// The subscription was not made.
    SubscribeFailed,
    /// The message was sent.
    Sent,
    /// The message was not sent.
    SendFailed,
    /// The event subscription was looked at.
    Polled(Poll),
    /// An event came in at a subscription while the server was waiting.
    Event {
        /// The number of the subscription.
        subscription: usize,
        /// The event.
        event: Vec<u8>,
    },
    /// The server shuts down.
    Shutdown,
}

/// What a server has to do about an event.
#[derive(Debug, PartialEq, Eq)]
pub enum ServerAction {
    /// Answer the client's request for a connection, and report what became of it.
    Upgrade,
    /// Wait for the client, the handler, an event or the shutdown.
    Select,
    /// Spawn a task in which the handler takes a call.
    Spawn {
        /// The ID of the call.
        id: u8,
        /// The serialized call: the method and its arguments.
        internal: Vec<u8>,
    },
    /// Send a message, and report what became of it.
    Send(ServerMessage),
    /// Ask for a subscription to a topic, and report what became of it.
    Subscribe(Topic),
    /// Look for an event at the subscription with this number, and report it.
    Poll(usize),
    /// Close the connection.
    Close,
}

/// What a server is about.
#[derive(Clone, Copy, Debug, PartialEq, Eq, Structural)]
pub enum Phase {
    /// Accepting TLS.
    Accepting,
    /// Answering the client's request for a connection.
    Upgrading,
    /// Waiting for the client, the handler, an event or the shutdown.
    Selecting,
    /// Spawning a handler's task.
    Spawning,
    /// Sending a response, a state change, or an event that came in.
    Sending,
    /// Sending the response that tells the client of a fatal error.
    SendingLast,
    /// Asking for a subscription.
    Subscribing,
    /// Looking at the subscription with this number.
    Polling(usize),
    /// Sending an event of the subscription with this number.
    SendingEvent(usize),
    /// Done.
    Closed,
}

/// The state of a server on a connection: the IDs of the calls it is handling, how
/// many event subscriptions it has, and what it is about.
#[verifier::ext_equal]
pub struct ServerModel {
    pub in_flight: Set<u8>,
    pub subscriptions: usize,
    pub phase: Phase,
}

/// The state of a server on a new connection: it accepts TLS.
pub open spec fn server_start() -> ServerModel {
    ServerModel { in_flight: Set::empty(), subscriptions: 0, phase: Phase::Accepting }
}

/// Whether an event can happen in a state. A subscription never lags, and there is
/// room for one more subscription when one is made.
pub open spec fn server_accepts(s: ServerModel, event: ServerEvent) -> bool {
    match event {
        ServerEvent::TlsAccepted | ServerEvent::TlsFailed => s.phase is Accepting,
        ServerEvent::Upgraded | ServerEvent::UpgradeRefused | ServerEvent::UpgradeFailed => s.phase
            is Upgrading,
        ServerEvent::Spawned => s.phase is Spawning,
        ServerEvent::Subscribed => s.phase is Subscribing && s.subscriptions < usize::MAX,
        ServerEvent::SubscribeFailed => s.phase is Subscribing,
        ServerEvent::Sent | ServerEvent::SendFailed => s.phase is Sending || s.phase is SendingLast
            || s.phase is SendingEvent,
        ServerEvent::Polled(poll) => s.phase is Polling && poll !is Lagged,
        ServerEvent::Event { subscription, .. } => s.phase is Selecting && subscription
            < s.subscriptions,
        _ => s.phase is Selecting,
    }
}

/// Looking at the subscriptions from number `next` on, and waiting again after the
/// last.
pub open spec fn poll_from(s: ServerModel, next: int) -> (ServerModel, ServerAction) {
    if next < s.subscriptions {
        (
            ServerModel { phase: Phase::Polling(next as usize), ..s },
            ServerAction::Poll(next as usize),
        )
    } else {
        (ServerModel { phase: Phase::Selecting, ..s }, ServerAction::Select)
    }
}

/// Closing the connection.
pub open spec fn close(s: ServerModel) -> (ServerModel, ServerAction) {
    (ServerModel { phase: Phase::Closed, ..s }, ServerAction::Close)
}

/// Waiting again, without a look at the subscriptions.
pub open spec fn select(s: ServerModel) -> (ServerModel, ServerAction) {
    (ServerModel { phase: Phase::Selecting, ..s }, ServerAction::Select)
}

/// The state after an event, and what the server has to do about it.
pub open spec fn server_step(s: ServerModel, event: ServerEvent) -> (ServerModel, ServerAction) {
    match event {
        ServerEvent::TlsAccepted => (
            ServerModel { phase: Phase::Upgrading, ..s },
            ServerAction::Upgrade,
        ),
        ServerEvent::Upgraded => select(s),
        ServerEvent::TlsFailed | ServerEvent::UpgradeRefused | ServerEvent::UpgradeFailed => close(
            s,
        ),
        ServerEvent::ReceiveFailed => select(s),
        ServerEvent::NotBinary => poll_from(s, 0),
        ServerEvent::Message(ClientMessage::RPCRequest { id, internal }) => {
            if s.in_flight.contains(id) {
                select(s)
            } else {
                (
                    ServerModel {
                        in_flight: s.in_flight.insert(id),
                        phase: Phase::Spawning,
                        ..s
                    },
                    ServerAction::Spawn { id, internal },
                )
            }
        },
        ServerEvent::Spawned => poll_from(s, 0),
        ServerEvent::Finished { id, output } => (
            ServerModel {
                in_flight: s.in_flight.remove(id),
                phase: if output == Err::<Vec<u8>, _>(RpcHandlerError::StatePoisoned) {
                    Phase::SendingLast
                } else {
                    Phase::Sending
                },
                ..s
            },
            ServerAction::Send(ServerMessage::RPCResponse { id, output }),
        ),
        ServerEvent::StateChanged(changes) => (
            ServerModel { phase: Phase::Sending, ..s },
            ServerAction::Send(ServerMessage::StateChange(changes)),
        ),
        ServerEvent::Subscribe(topic) => (
            ServerModel { phase: Phase::Subscribing, ..s },
            ServerAction::Subscribe(topic),
        ),
        ServerEvent::Subscribed => poll_from(
            ServerModel { subscriptions: (s.subscriptions + 1) as usize, ..s },
            0,
        ),
        ServerEvent::SubscribeFailed => poll_from(s, 0),
        ServerEvent::Sent => match s.phase {
            Phase::SendingLast => close(s),
            Phase::SendingEvent(n) => poll_from(s, n + 1),
            _ => poll_from(s, 0),
        },
        ServerEvent::SendFailed => match s.phase {
            Phase::SendingLast => close(s),
            Phase::SendingEvent(n) => poll_from(s, n + 1),
            _ => select(s),
        },
        ServerEvent::Polled(Poll::Event(event)) => (
            ServerModel { phase: Phase::SendingEvent(s.phase->Polling_0), ..s },
            ServerAction::Send(ServerMessage::NewEvent { event }),
        ),
        ServerEvent::Polled(_) => poll_from(s, s.phase->Polling_0 + 1),
        ServerEvent::Event { event, .. } => (
            ServerModel { phase: Phase::Sending, ..s },
            ServerAction::Send(ServerMessage::NewEvent { event }),
        ),
        ServerEvent::Shutdown => close(s),
    }
}

/// A server's side of a connection.
pub struct ServerConnection {
    in_flight: InFlight,
    subscriptions: usize,
    phase: Phase,
}

impl View for ServerConnection {
    type V = ServerModel;

    closed spec fn view(&self) -> ServerModel {
        ServerModel {
            in_flight: self.in_flight@,
            subscriptions: self.subscriptions,
            phase: self.phase,
        }
    }
}

impl ServerConnection {
    /// A new connection, on which TLS is to be accepted, with no call in flight and no
    /// subscription.
    pub fn new() -> (r: Self)
        ensures
            r@ == server_start(),
    {
        ServerConnection {
            in_flight: InFlight::new(),
            subscriptions: 0,
            phase: Phase::Accepting,
        }
    }

    /// Whether an event can happen now.
    pub fn accepts(&self, event: &ServerEvent) -> (r: bool)
        ensures
            r == server_accepts(self@, *event),
    {
        match event {
            ServerEvent::TlsAccepted | ServerEvent::TlsFailed => {
                matches!(self.phase, Phase::Accepting)
            },
            ServerEvent::Upgraded | ServerEvent::UpgradeRefused | ServerEvent::UpgradeFailed => {
                matches!(self.phase, Phase::Upgrading)
            },
            ServerEvent::Spawned => matches!(self.phase, Phase::Spawning),
            ServerEvent::Subscribed => {
                matches!(self.phase, Phase::Subscribing) && self.subscriptions < usize::MAX
            },
            ServerEvent::SubscribeFailed => matches!(self.phase, Phase::Subscribing),
            ServerEvent::Sent | ServerEvent::SendFailed => {
                matches!(self.phase, Phase::Sending | Phase::SendingLast | Phase::SendingEvent(_))
            },
            ServerEvent::Polled(poll) => {
                matches!(self.phase, Phase::Polling(_)) && !matches!(poll, Poll::Lagged)
            },
            ServerEvent::Event { subscription, .. } => {
                matches!(self.phase, Phase::Selecting) && *subscription < self.subscriptions
            },
            _ => matches!(self.phase, Phase::Selecting),
        }
    }

    /// Goes on with the subscriptions from number `next` on.
    fn poll_from(&mut self, next: usize) -> (action: ServerAction)
        ensures
            (final(self)@, action) == poll_from(old(self)@, next as int),
    {
        if next < self.subscriptions {
            self.phase = Phase::Polling(next);
            ServerAction::Poll(next)
        } else {
            self.phase = Phase::Selecting;
            ServerAction::Select
        }
    }

    /// Goes on with the subscription after number `last`.
    fn poll_after(&mut self, last: usize) -> (action: ServerAction)
        ensures
            (final(self)@, action) == poll_from(old(self)@, last + 1),
    {
        if last < usize::MAX {
            self.poll_from(last + 1)
        } else {
            self.phase = Phase::Selecting;
            ServerAction::Select
        }
    }

    /// Takes an event, and says what to do about it.
    pub fn step(&mut self, event: ServerEvent) -> (action: ServerAction)
        requires
            server_accepts(old(self)@, event),
        ensures
            (final(self)@, action) == server_step(old(self)@, event),
    {
        match event {
            ServerEvent::TlsAccepted => {
                self.phase = Phase::Upgrading;
                ServerAction::Upgrade
            },
            ServerEvent::Upgraded => {
                self.phase = Phase::Selecting;
                ServerAction::Select
            },
            ServerEvent::TlsFailed | ServerEvent::UpgradeRefused | ServerEvent::UpgradeFailed => {
                self.phase = Phase::Closed;
                ServerAction::Close
            },
            ServerEvent::ReceiveFailed => ServerAction::Select,
            ServerEvent::NotBinary => self.poll_from(0),
            ServerEvent::Message(ClientMessage::RPCRequest { id, internal }) => {
                if self.in_flight.contains(id) {
                    return ServerAction::Select;
                }
                self.in_flight.insert(id);
                self.phase = Phase::Spawning;
                ServerAction::Spawn { id, internal }
            },
            ServerEvent::Spawned => self.poll_from(0),
            ServerEvent::Finished { id, output } => {
                self.in_flight.remove(id);
                self.phase = match output {
                    Err(RpcHandlerError::StatePoisoned) => Phase::SendingLast,
                    _ => Phase::Sending,
                };
                ServerAction::Send(ServerMessage::RPCResponse { id, output })
            },
            ServerEvent::StateChanged(changes) => {
                self.phase = Phase::Sending;
                ServerAction::Send(ServerMessage::StateChange(changes))
            },
            ServerEvent::Subscribe(topic) => {
                self.phase = Phase::Subscribing;
                ServerAction::Subscribe(topic)
            },
            ServerEvent::Subscribed => {
                self.subscriptions = self.subscriptions + 1;
                self.poll_from(0)
            },
            ServerEvent::SubscribeFailed => self.poll_from(0),
            ServerEvent::Sent => match self.phase {
                Phase::SendingLast => {
                    self.phase = Phase::Closed;
                    ServerAction::Close
                },
                Phase::SendingEvent(n) => self.poll_after(n),
                _ => self.poll_from(0),
            },
            ServerEvent::SendFailed => match self.phase {
                Phase::SendingLast => {
                    self.phase = Phase::Closed;
                    ServerAction::Close
                },
                Phase::SendingEvent(n) => self.poll_after(n),
                _ => {
                    self.phase = Phase::Selecting;
                    ServerAction::Select
                },
            },
            ServerEvent::Polled(poll) => {
                let n: usize = match self.phase {
                    Phase::Polling(n) => n,
                    _ => 0,
                };
                match poll {
                    Poll::Event(event) => {
                        self.phase = Phase::SendingEvent(n);
                        ServerAction::Send(ServerMessage::NewEvent { event })
                    },
                    _ => self.poll_after(n),
                }
            },
            ServerEvent::Event { event, .. } => {
                self.phase = Phase::Sending;
                ServerAction::Send(ServerMessage::NewEvent { event })
            },
            ServerEvent::Shutdown => {
                self.phase = Phase::Closed;
                ServerAction::Close
            },
        }
    }
}

/// When the connection state is poisoned the client is told, and the connection is
/// closed, whether or not telling the client succeeded. After that nothing happens any
/// more.
pub proof fn a_poisoned_state_closes_the_connection(
    s: ServerModel,
    id: u8,
    report: ServerEvent,
    event: ServerEvent,
)
    ensures
        ({
            let poisoned: HandlerResult<Vec<u8>> = Err(RpcHandlerError::StatePoisoned);
            let (told, action) = server_step(s, ServerEvent::Finished { id, output: poisoned });
            let (closed, last) = server_step(told, report);
            &&& action == ServerAction::Send(ServerMessage::RPCResponse { id, output: poisoned })
            &&& server_accepts(told, report) <==> report is Sent || report is SendFailed
            &&& server_accepts(told, report) ==> last == ServerAction::Close && !server_accepts(
                closed,
                event,
            )
        }),
{
}

/// A request with the ID of a call that is being handled is ignored.
pub proof fn a_call_in_flight_is_not_handled_again(s: ServerModel, id: u8, internal: Vec<u8>)
    requires
        s.in_flight.contains(id),
        server_accepts(s, ServerEvent::Message(ClientMessage::RPCRequest { id, internal })),
    ensures
        server_step(s, ServerEvent::Message(ClientMessage::RPCRequest { id, internal })) == (
            s,
            ServerAction::Select,
        ),
{
}

/// Once a call is finished, a request with its ID is handled again, as soon as the
/// server waits for the client.
pub proof fn a_finished_id_can_be_used_again(
    s: ServerModel,
    id: u8,
    output: HandlerResult<Vec<u8>>,
    phase: Phase,
    internal: Vec<u8>,
)
    ensures
        ({
            let finished = server_step(s, ServerEvent::Finished { id, output }).0;
            let waiting = ServerModel { phase, ..finished };
            server_step(
                waiting,
                ServerEvent::Message(ClientMessage::RPCRequest { id, internal }),
            ).1 == (ServerAction::Spawn { id, internal })
        }),
{
}

/// The subscriptions are looked at in turn: whatever is found at one, and whether or not
/// an event that is found there can be sent, the next one is looked at.
pub proof fn subscriptions_are_looked_at_in_turn(
    s: ServerModel,
    n: usize,
    poll: Poll,
    report: ServerEvent,
)
    requires
        s.phase == Phase::Polling(n),
        server_accepts(s, ServerEvent::Polled(poll)),
        report is Sent || report is SendFailed,
    ensures
        ({
            let (after, action) = server_step(s, ServerEvent::Polled(poll));
            match poll {
                Poll::Event(event) => action == ServerAction::Send(
                    ServerMessage::NewEvent { event },
                ) && server_step(after, report) == poll_from(s, n + 1),
                _ => (after, action) == poll_from(s, n + 1),
            }
        }),
{
}

/// After the shutdown nothing happens any more.
pub proof fn a_server_shutdown_is_final(s: ServerModel, event: ServerEvent)
    ensures
        server_step(s, ServerEvent::Shutdown).1 == ServerAction::Close,
        !server_accepts(server_step(s, ServerEvent::Shutdown).0, event),
{
}

/// The state after events, one after the other, on a new connection.
pub open spec fn reached(events: Seq<ServerEvent>) -> ServerModel
    decreases events.len(),
{
    if events.len() == 0 {
        server_start()
    } else {
        server_step(reached(events.drop_last()), events.last()).0
    }
}

/// Whether events can happen, one after the other, on a new connection.
pub open spec fn can_happen(events: Seq<ServerEvent>) -> bool
    decreases events.len(),
{
    events.len() > 0 ==> can_happen(events.drop_last()) && server_accepts(
        reached(events.drop_last()),
        events.last(),
    )
}

proof fn lemma_phase_shows_history(events: Seq<ServerEvent>)
    requires
        can_happen(events),
    ensures
        ({
            let phase = reached(events).phase;
            &&& phase !is Accepting && phase !is Closed ==> events.contains(
                ServerEvent::TlsAccepted,
            )
            &&& phase !is Accepting && phase !is Upgrading && phase !is Closed ==> events.contains(
                ServerEvent::Upgraded,
            )
        }),
    decreases events.len(),
{
    if events.len() > 0 {
        let earlier = events.drop_last();
        lemma_phase_shows_history(earlier);
        assert(events[events.len() - 1] == events.last());
        assert forall|event: ServerEvent| #[trigger] earlier.contains(event) implies events.contains(
            event,
        ) by {
            let i = choose|i: int| 0 <= i < earlier.len() && earlier[i] == event;
            assert(events[i] == event);
        }
    }
}

/// A handler is given a call only when a request comes in, with the request's ID and bytes,
/// and after TLS was accepted and the client was answered with the server's protocol.
pub proof fn a_handler_runs_only_after_the_handshake(
    events: Seq<ServerEvent>,
    event: ServerEvent,
    id: u8,
    internal: Vec<u8>,
)
    requires
        can_happen(events),
        server_accepts(reached(events), event),
        server_step(reached(events), event).1 == (ServerAction::Spawn { id, internal }),
    ensures
        event == ServerEvent::Message(ClientMessage::RPCRequest { id, internal }),
        events.contains(ServerEvent::TlsAccepted),
        events.contains(ServerEvent::Upgraded),
{
    lemma_phase_shows_history(events);
}

/// A connection whose handshake fails, at TLS or at the answer, is closed, and no handler is
/// given a call on it.
pub proof fn a_failed_handshake_closes_the_connection(
    s: ServerModel,
    failure: ServerEvent,
    event: ServerEvent,
)
    requires
        failure is TlsFailed || failure is UpgradeRefused || failure is UpgradeFailed,
    ensures
        server_step(s, failure).1 == ServerAction::Close,
        !server_accepts(server_step(s, failure).0, event),
{
}

/// Each call that a handler finishes gets its response: whatever the ID, the output and the
/// server's state are, the server sends the response with that ID and that output, and then
/// waits to hear what became of it. The call is no longer in flight, the others still are, and
/// the subscriptions stay.
pub proof fn every_finished_call_gets_its_response(
    s: ServerModel,
    id: u8,
    output: HandlerResult<Vec<u8>>,
)
    ensures
        ({
            let (after, action) = server_step(s, ServerEvent::Finished { id, output });
            &&& action == ServerAction::Send(ServerMessage::RPCResponse { id, output })
            &&& server_accepts(after, ServerEvent::Sent)
            &&& server_accepts(after, ServerEvent::SendFailed)
            &&& !after.in_flight.contains(id)
            &&& forall|other: u8|
                other != id ==> #[trigger] after.in_flight.contains(other)
                    == s.in_flight.contains(other)
            &&& after.subscriptions == s.subscriptions
        }),
        s.phase is Selecting ==> server_accepts(s, ServerEvent::Finished { id, output }),
{
}

/// Two calls get the same message exactly if they have the same ID and the same output.
pub proof fn responses_tell_calls_apart(
    s: ServerModel,
    id: u8,
    output: HandlerResult<Vec<u8>>,
    t: ServerModel,
    other_id: u8,
    other_output: HandlerResult<Vec<u8>>,
)
    ensures
        server_step(s, ServerEvent::Finished { id, output }).1 == server_step(
            t,
            ServerEvent::Finished { id: other_id, output: other_output },
        ).1 <==> id == other_id && output == other_output,
{
}

/// After a response, unless it told the client that the connection state is poisoned, the
/// server goes on: told that the response was sent, it looks at its first subscription, or
/// waits if it has none; told that it was not, it waits.
pub proof fn a_response_leaves_the_connection_open(
    s: ServerModel,
    id: u8,
    output: HandlerResult<Vec<u8>>,
)
    requires
        output != Err::<Vec<u8>, _>(RpcHandlerError::StatePoisoned),
    ensures
        ({
            let told = server_step(s, ServerEvent::Finished { id, output }).0;
            let (after, next) = server_step(told, ServerEvent::Sent);
            let (unsent, then) = server_step(told, ServerEvent::SendFailed);
            &&& s.subscriptions > 0 ==> next == ServerAction::Poll(0) && after.phase
                == Phase::Polling(0)
            &&& s.subscriptions == 0 ==> next == ServerAction::Select && after.phase is Selecting
            &&& then == ServerAction::Select
            &&& unsent.phase is Selecting
        }),
{
}

/// Each wish to subscribe is asked for: whatever the topic is, and however many subscriptions
/// the connection has, the server asks for a subscription to that topic. The subscriptions it
/// has stay, and it gains exactly one if it is given one, and none otherwise; then it looks at
/// the first.
pub proof fn every_wish_to_subscribe_is_asked_for(s: ServerModel, topic: Topic)
    ensures
        ({
            let (asked, action) = server_step(s, ServerEvent::Subscribe(topic));
            let (given, next) = server_step(asked, ServerEvent::Subscribed);
            let (refused, then) = server_step(asked, ServerEvent::SubscribeFailed);
            &&& action == ServerAction::Subscribe(topic)
            &&& asked.in_flight == s.in_flight
            &&& asked.subscriptions == s.subscriptions
            &&& server_accepts(asked, ServerEvent::SubscribeFailed)
            &&& s.subscriptions < usize::MAX ==> {
                &&& server_accepts(asked, ServerEvent::Subscribed)
                &&& given.subscriptions == s.subscriptions + 1
                &&& given.in_flight == s.in_flight
                &&& next == ServerAction::Poll(0)
            }
            &&& refused.subscriptions == s.subscriptions
            &&& refused.in_flight == s.in_flight
            &&& then == if s.subscriptions > 0 {
                ServerAction::Poll(0)
            } else {
                ServerAction::Select
            }
        }),
        s.phase is Selecting ==> server_accepts(s, ServerEvent::Subscribe(topic)),
{
}

/// Each list of changes to the connection state is sent to the client as it is.
pub proof fn every_state_change_is_sent(s: ServerModel, changes: Vec<(usize, Vec<u8>)>)
    ensures
        ({
            let (after, action) = server_step(s, ServerEvent::StateChanged(changes));
            &&& action == ServerAction::Send(ServerMessage::StateChange(changes))
            &&& server_accepts(after, ServerEvent::Sent)
            &&& server_accepts(after, ServerEvent::SendFailed)
            &&& after.in_flight == s.in_flight
            &&& after.subscriptions == s.subscriptions
        }),
        s.phase is Selecting ==> server_accepts(s, ServerEvent::StateChanged(changes)),
{
}

/// Each request whose ID no call has that is being handled is given to a handler, with that ID
/// and those bytes, and is then being handled. The other calls stay.
pub proof fn every_new_request_is_given_to_a_handler(s: ServerModel, id: u8, internal: Vec<u8>)
    requires
        !s.in_flight.contains(id),
    ensures
        ({
            let request = ServerEvent::Message(ClientMessage::RPCRequest { id, internal });
            let (after, action) = server_step(s, request);
            &&& action == (ServerAction::Spawn { id, internal })
            &&& server_accepts(after, ServerEvent::Spawned)
            &&& after.in_flight.contains(id)
            &&& forall|other: u8|
                other != id ==> #[trigger] after.in_flight.contains(other)
                    == s.in_flight.contains(other)
            &&& after.subscriptions == s.subscriptions
            &&& s.phase is Selecting ==> server_accepts(s, request)
        }),
{
}

/// Each event of a topic, whether it comes in while the server waits or is found when the
/// server looks at a subscription, is sent to the client as it is.
pub proof fn every_event_is_sent(s: ServerModel, subscription: usize, event: Vec<u8>)
    ensures
        ({
            let (after, action) = server_step(s, ServerEvent::Event { subscription, event });
            &&& action == ServerAction::Send(ServerMessage::NewEvent { event })
            &&& server_accepts(after, ServerEvent::Sent)
            &&& after.in_flight == s.in_flight
            &&& after.subscriptions == s.subscriptions
            &&& s.phase is Selecting && subscription < s.subscriptions ==> server_accepts(
                s,
                ServerEvent::Event { subscription, event },
            )
        }),
        ({
            let (after, action) = server_step(s, ServerEvent::Polled(Poll::Event(event)));
            &&& action == ServerAction::Send(ServerMessage::NewEvent { event })
            &&& server_accepts(after, ServerEvent::Sent)
            &&& after.in_flight == s.in_flight
            &&& after.subscriptions == s.subscriptions
            &&& s.phase is Polling ==> server_accepts(s, ServerEvent::Polled(Poll::Event(event)))
        }),
{
}

/// Looking at the subscriptions goes from the first to the last: behind the one with number
/// `n` comes the one with number `n + 1`, and behind the last the server waits again.
pub proof fn every_subscription_is_looked_at(s: ServerModel, n: usize, poll: Poll)
    requires
        s.phase == Phase::Polling(n),
        poll !is Event,
        poll !is Lagged,
    ensures
        server_accepts(s, ServerEvent::Polled(poll)),
        ({
            let (after, action) = server_step(s, ServerEvent::Polled(poll));
            &&& after.in_flight == s.in_flight
            &&& after.subscriptions == s.subscriptions
            &&& n + 1 < s.subscriptions ==> action == ServerAction::Poll((n + 1) as usize)
                && after.phase == Phase::Polling((n + 1) as usize)
            &&& n + 1 >= s.subscriptions ==> action == ServerAction::Select && after.phase
                is Selecting
        }),
{
}

/// Behind an event that was found at a subscription, and was sent or was not, the next
/// subscription is looked at.
pub proof fn an_event_does_not_end_the_look(s: ServerModel, n: usize, report: ServerEvent)
    requires
        s.phase == Phase::SendingEvent(n),
        report is Sent || report is SendFailed,
    ensures
        server_accepts(s, report),
        ({
            let (after, action) = server_step(s, report);
            &&& after.in_flight == s.in_flight
            &&& after.subscriptions == s.subscriptions
            &&& n + 1 < s.subscriptions ==> action == ServerAction::Poll((n + 1) as usize)
                && after.phase == Phase::Polling((n + 1) as usize)
            &&& n + 1 >= s.subscriptions ==> action == ServerAction::Select && after.phase
                is Selecting
        }),
{
}

/// The server looks at its subscriptions from the first on after each turn of its loop that
/// got to its end: after a frame that is no message, after a handler's task was spawned, and
/// after what came up was sent. A failure ends the turn, and the server waits again.
pub proof fn a_turn_ends_with_a_look(s: ServerModel, event: ServerEvent)
    requires
        event is NotBinary || event is Spawned || (event is Sent && s.phase is Sending),
    ensures
        ({
            let (after, action) = server_step(s, event);
            &&& after.in_flight == s.in_flight
            &&& after.subscriptions == s.subscriptions
            &&& s.subscriptions > 0 ==> action == ServerAction::Poll(0) && after.phase
                == Phase::Polling(0)
            &&& s.subscriptions == 0 ==> action == ServerAction::Select && after.phase is Selecting
        }),
        ({
            let (after, action) = server_step(s, ServerEvent::ReceiveFailed);
            &&& action == ServerAction::Select
            &&& after.phase is Selecting
            &&& after.in_flight == s.in_flight
            &&& after.subscriptions == s.subscriptions
        }),
{
}

/// Only a request and an output change which calls are being handled, and only a subscription
/// that is given changes how many there are.
pub proof fn calls_and_subscriptions_stay(s: ServerModel, event: ServerEvent)
    ensures
        event !is Message && event !is Finished ==> server_step(s, event).0.in_flight
            == s.in_flight,
        event !is Subscribed ==> server_step(s, event).0.subscriptions == s.subscriptions,
{
}

/// A server that waits takes whatever the client, a handler, a subscription of its own or the
/// shutdown brings, and nothing else. One that does not wait takes none of these.
pub proof fn a_waiting_server_takes_everything(s: ServerModel, event: ServerEvent)
    requires
        event is ReceiveFailed || event is NotBinary || event is Message || event is Finished
            || event is StateChanged || event is Subscribe || event is Shutdown || (event is Event
            && event->subscription < s.subscriptions),
    ensures
        server_accepts(s, event) <==> s.phase is Selecting,
{
}

/// Outside the wait the server hears what became of what it is about, and nothing else.
pub proof fn a_busy_server_hears_what_became_of_it(s: ServerModel, event: ServerEvent)
    ensures
        s.phase is Accepting ==> (server_accepts(s, event) <==> event is TlsAccepted || event
            is TlsFailed),
        s.phase is Upgrading ==> (server_accepts(s, event) <==> event is Upgraded || event
            is UpgradeRefused || event is UpgradeFailed),
        s.phase is Spawning ==> (server_accepts(s, event) <==> event is Spawned),
        s.phase is Sending || s.phase is SendingLast || s.phase is SendingEvent ==> (
        server_accepts(s, event) <==> event is Sent || event is SendFailed),
        s.phase is Polling ==> (server_accepts(s, event) <==> event is Polled && event->Polled_0
            !is Lagged),
        s.phase is Subscribing ==> (server_accepts(s, event) <==> event is SubscribeFailed || (event
            is Subscribed && s.subscriptions < usize::MAX)),
        s.phase is Closed ==> !server_accepts(s, event),
{
}

/// A connection on which TLS was accepted answers the client, and one on which the client was
/// answered waits, with the calls and the subscriptions that it had. A new connection has none
/// of either, and accepts TLS.
pub proof fn a_connection_begins_with_the_handshake(s: ServerModel)
    ensures
        ({
            let (accepted, first) = server_step(s, ServerEvent::TlsAccepted);
            let (upgraded, second) = server_step(s, ServerEvent::Upgraded);
            &&& first == ServerAction::Upgrade
            &&& server_accepts(accepted, ServerEvent::Upgraded)
            &&& accepted.in_flight == s.in_flight
            &&& accepted.subscriptions == s.subscriptions
            &&& second == ServerAction::Select
            &&& upgraded.phase is Selecting
            &&& upgraded.in_flight == s.in_flight
            &&& upgraded.subscriptions == s.subscriptions
        }),
        server_accepts(server_start(), ServerEvent::TlsAccepted),
        server_start().in_flight.len() == 0,
        server_start().subscriptions == 0,
{
}

}
