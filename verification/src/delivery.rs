//! What becomes of the events that are published on a channel: every connection that is
//! subscribed to it takes each of them up to send it to its client, once, and in order.

use vstd::prelude::*;

use crate::server_loop::{
    server_accepts, server_start, server_step, Phase, Poll, ServerAction, ServerEvent, ServerModel,
};
use crate::wire::ServerMessage;

verus! {

/// A connection and its subscriptions. Of the subscription with a number: the number of its
/// channel; the events that were published on that channel since it was made; those of them
/// that wait for the server to look; and those that the server has taken up to send. An event
/// whose sending then fails is among the latter: it does not reach the client.
#[verifier::ext_equal]
pub struct Subscriber {
    pub server: ServerModel,
    pub channels: Seq<int>,
    pub published: Seq<Seq<Vec<u8>>>,
    pub waiting: Seq<Seq<Vec<u8>>>,
    pub taken_up: Seq<Seq<Vec<u8>>>,
}

/// A new connection, without subscriptions.
pub open spec fn subscriber_start() -> Subscriber {
    Subscriber {
        server: server_start(),
        channels: seq![],
        published: seq![],
        waiting: seq![],
        taken_up: seq![],
    }
}

/// What holds throughout: the events that were published are those that were taken up to send
/// and, after them, those that wait.
pub open spec fn nothing_is_passed_over(s: Subscriber) -> bool {
    &&& s.channels.len() == s.server.subscriptions
    &&& s.published.len() == s.server.subscriptions
    &&& s.waiting.len() == s.server.subscriptions
    &&& s.taken_up.len() == s.server.subscriptions
    &&& s.server.phase matches Phase::Polling(n) ==> n < s.server.subscriptions
    &&& forall|n: int|
        0 <= n < s.server.subscriptions ==> #[trigger] s.published[n] == s.taken_up[n] + s.waiting[n]
}

/// The lists of events, one for each subscription, with one more event for those to a
/// channel.
pub open spec fn with_event(
    lists: Seq<Seq<Vec<u8>>>,
    channels: Seq<int>,
    channel: int,
    event: Vec<u8>,
) -> Seq<Seq<Vec<u8>>> {
    lists.map(
        |n: int, list: Seq<Vec<u8>>|
            if channels[n] == channel {
                list.push(event)
            } else {
                list
            },
    )
}

/// The connection after an event was published on a channel.
pub open spec fn after_publishing(s: Subscriber, channel: int, event: Vec<u8>) -> Subscriber {
    Subscriber {
        published: with_event(s.published, s.channels, channel, event),
        waiting: with_event(s.waiting, s.channels, channel, event),
        ..s
    }
}

/// Whether something can happen to the connection: at a subscription it finds the oldest
/// event that waits there, and none only if none waits.
pub open spec fn takes(s: Subscriber, event: ServerEvent) -> bool {
    server_accepts(s.server, event) && match event {
        ServerEvent::Event { subscription, event } => s.waiting[subscription as int].len() > 0
            && s.waiting[subscription as int][0] == event,
        ServerEvent::Polled(poll) => {
            let waiting = s.waiting[s.server.phase->Polling_0 as int];
            match poll {
                Poll::Event(event) => waiting.len() > 0 && waiting[0] == event,
                Poll::Empty => waiting.len() == 0,
                _ => true,
            }
        },
        _ => true,
    }
}

/// The number of the subscription at which an event was found, if one was.
pub open spec fn found_at(s: Subscriber, event: ServerEvent) -> Option<int> {
    match event {
        ServerEvent::Event { subscription, .. } => Some(subscription as int),
        ServerEvent::Polled(Poll::Event(_)) => Some(s.server.phase->Polling_0 as int),
        _ => None,
    }
}

/// The connection after something happened to it. An event that is found is no longer
/// waiting, and is taken up if the server says to send it. A new subscription is to a channel.
pub open spec fn after_event(s: Subscriber, event: ServerEvent, channel: int) -> Subscriber {
    let (server, action) = server_step(s.server, event);
    let moved = Subscriber { server, ..s };
    match (found_at(s, event), action) {
        (Some(n), ServerAction::Send(ServerMessage::NewEvent { event })) => Subscriber {
            waiting: s.waiting.update(n, s.waiting[n].skip(1)),
            taken_up: s.taken_up.update(n, s.taken_up[n].push(event)),
            ..moved
        },
        (Some(n), _) => Subscriber {
            waiting: s.waiting.update(n, s.waiting[n].skip(1)),
            ..moved
        },
        (None, _) => if event is Subscribed {
            Subscriber {
                channels: s.channels.push(channel),
                published: s.published.push(seq![]),
                waiting: s.waiting.push(seq![]),
                taken_up: s.taken_up.push(seq![]),
                ..moved
            }
        } else {
            moved
        },
    }
}

/// On a connection, new or not, no event is passed over, taken up twice or taken up out of
/// order, whatever happens and whatever is published.
pub proof fn every_event_is_taken_up_once_and_in_order(
    s: Subscriber,
    event: ServerEvent,
    channel: int,
    published: Vec<u8>,
)
    ensures
        nothing_is_passed_over(subscriber_start()),
        nothing_is_passed_over(s) && takes(s, event) ==> nothing_is_passed_over(after_event(s, event, channel)),
        nothing_is_passed_over(s) ==> nothing_is_passed_over(after_publishing(s, channel, published)),
{
    if nothing_is_passed_over(s) {
        let after = after_publishing(s, channel, published);
        assert forall|n: int| 0 <= n < after.server.subscriptions implies #[trigger] after.published[n]
            == after.taken_up[n] + after.waiting[n] by {
            assert(s.published[n] == s.taken_up[n] + s.waiting[n]);
        }
    }
    if nothing_is_passed_over(s) && takes(s, event) {
        let after = after_event(s, event, channel);
        assert forall|n: int| 0 <= n < after.server.subscriptions implies #[trigger] after.published[n]
            == after.taken_up[n] + after.waiting[n] by {
            if n < s.server.subscriptions {
                assert(s.published[n] == s.taken_up[n] + s.waiting[n]);
            }
        }
    }
}

/// An event that is published on a channel is the last one published for every subscription
/// to that channel, of every connection, and waits there; for the others nothing changes.
pub proof fn an_event_reaches_every_subscriber(
    subscribers: Seq<Subscriber>,
    channel: int,
    event: Vec<u8>,
    k: int,
    n: int,
)
    requires
        0 <= k < subscribers.len(),
        nothing_is_passed_over(subscribers[k]),
        0 <= n < subscribers[k].server.subscriptions,
    ensures
        ({
            let s = subscribers[k];
            let after = after_publishing(s, channel, event);
            if s.channels[n] == channel {
                &&& after.published[n] == s.published[n].push(event)
                &&& after.waiting[n] == s.waiting[n].push(event)
            } else {
                &&& after.published[n] == s.published[n]
                &&& after.waiting[n] == s.waiting[n]
            }
        }),
{
}

/// A connection that waits sends the oldest event that waits at a subscription, its bytes
/// unchanged, though nothing else happens on the connection.
pub proof fn a_waiting_connection_sends_events(s: Subscriber, n: usize)
    requires
        nothing_is_passed_over(s),
        s.server.phase is Selecting,
        n < s.server.subscriptions,
        s.waiting[n as int].len() > 0,
    ensures
        ({
            let oldest = s.waiting[n as int][0];
            let event = ServerEvent::Event { subscription: n, event: oldest };
            let after = after_event(s, event, 0);
            &&& takes(s, event)
            &&& server_step(s.server, event).1 == ServerAction::Send(
                ServerMessage::NewEvent { event: oldest },
            )
            &&& after.taken_up[n as int] == s.taken_up[n as int].push(oldest)
            &&& after.waiting[n as int] == s.waiting[n as int].skip(1)
        }),
{
}

/// So does a connection that looks at its subscriptions, whatever it does next.
pub proof fn a_looking_connection_sends_events(s: Subscriber, n: usize)
    requires
        nothing_is_passed_over(s),
        s.server.phase == Phase::Polling(n),
        s.waiting[n as int].len() > 0,
    ensures
        ({
            let oldest = s.waiting[n as int][0];
            let event = ServerEvent::Polled(Poll::Event(oldest));
            let after = after_event(s, event, 0);
            &&& takes(s, event)
            &&& !takes(s, ServerEvent::Polled(Poll::Empty))
            &&& server_step(s.server, event).1 == ServerAction::Send(
                ServerMessage::NewEvent { event: oldest },
            )
            &&& after.taken_up[n as int] == s.taken_up[n as int].push(oldest)
            &&& after.waiting[n as int] == s.waiting[n as int].skip(1)
        }),
{
}

}
