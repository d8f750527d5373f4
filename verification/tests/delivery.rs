use std::collections::VecDeque;

use hardlight::server_loop::{Poll, ServerAction, ServerConnection, ServerEvent};
use hardlight::topic::{RunAction, RunEvent, TopicTable};
use hardlight::ServerMessage;

/// A connection whose handshake has succeeded.
fn established() -> ServerConnection {
    let mut connection = ServerConnection::new();
    connection.step(ServerEvent::TlsAccepted);
    connection.step(ServerEvent::Upgraded);
    connection
}

/// A connection with the channels that it is subscribed to and the events that wait there.
struct Subscriber {
    connection: ServerConnection,
    subscriptions: Vec<(usize, VecDeque<Vec<u8>>)>,
    sent: Vec<Vec<u8>>,
}

impl Subscriber {
    fn new() -> Self {
        Subscriber { connection: established(), subscriptions: Vec::new(), sent: Vec::new() }
    }

    /// Hands an event to the connection and does what it says until it waits again.
    fn take(&mut self, mut event: ServerEvent) {
        loop {
            assert!(self.connection.accepts(&event));
            event = match self.connection.step(event) {
                ServerAction::Select => return,
                ServerAction::Subscribe(_) => ServerEvent::Subscribed,
                ServerAction::Send(ServerMessage::NewEvent { event }) => {
                    self.sent.push(event);
                    ServerEvent::Sent
                }
                ServerAction::Poll(number) => match self.subscriptions[number].1.pop_front() {
                    Some(event) => ServerEvent::Polled(Poll::Event(event)),
                    None => ServerEvent::Polled(Poll::Empty),
                },
                _ => unreachable!(),
            };
        }
    }

    fn subscribe(&mut self, topics: &mut TopicTable, name: &str) {
        let number = match topics.step(RunEvent::Subscription(name.into())) {
            RunAction::Open(number) | RunAction::Share(number) => number,
            _ => unreachable!(),
        };
        self.subscriptions.push((number, VecDeque::new()));
        self.take(ServerEvent::Subscribe(name.into()));
    }

    /// Takes the events that wait, while nothing else happens.
    fn settle(&mut self) {
        while let Some(subscription) = (0..self.subscriptions.len()).find(|n| !self.subscriptions[*n].1.is_empty()) {
            let event = self.subscriptions[subscription].1.pop_front().unwrap();
            self.take(ServerEvent::Event { subscription, event });
        }
    }
}

fn publish(subscribers: &mut [Subscriber], channel: usize, event: &[u8]) {
    for subscriber in subscribers {
        for (number, waiting) in &mut subscriber.subscriptions {
            if *number == channel {
                waiting.push_back(event.to_vec());
            }
        }
    }
}

#[test]
fn an_event_is_sent_to_every_subscriber_of_its_topic() {
    let mut topics = TopicTable::new();
    let mut subscribers: Vec<Subscriber> = (0..4).map(|_| Subscriber::new()).collect();
    subscribers[0].subscribe(&mut topics, "chat");
    subscribers[1].subscribe(&mut topics, "news");
    subscribers[1].subscribe(&mut topics, "chat");
    subscribers[2].subscribe(&mut topics, "news");
    publish(&mut subscribers, 0, b"hello");
    for subscriber in &mut subscribers {
        subscriber.settle();
    }
    let sent: Vec<Vec<Vec<u8>>> = subscribers.iter().map(|subscriber| subscriber.sent.clone()).collect();
    assert_eq!(sent, vec![vec![b"hello".to_vec()], vec![b"hello".to_vec()], vec![], vec![]]);
}

#[test]
fn events_are_sent_once_and_in_order() {
    let mut topics = TopicTable::new();
    let mut subscribers = vec![Subscriber::new()];
    subscribers[0].subscribe(&mut topics, "chat");
    for n in 0..5 {
        publish(&mut subscribers, 0, &[n]);
    }
    // Something else happens, after which the server looks at the subscription by itself.
    subscribers[0].take(ServerEvent::NotBinary);
    publish(&mut subscribers, 0, &[5]);
    subscribers[0].settle();
    subscribers[0].settle();
    assert_eq!(subscribers[0].sent, (0..=5).map(|n| vec![n]).collect::<Vec<Vec<u8>>>());
}
