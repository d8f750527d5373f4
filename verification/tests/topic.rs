use hardlight::topic::{RunAction, RunEvent, TopicTable};
use hardlight::Topic;

#[test]
fn a_topic_has_the_bytes_it_is_made_from() {
    let from_bytes: Topic = vec![1u8, 2, 3].into();
    assert_eq!(Vec::<u8>::from(from_bytes), vec![1, 2, 3]);
    let from_str: Topic = "chat".into();
    assert_eq!(Vec::<u8>::from(from_str), b"chat".to_vec());
    let from_string: Topic = String::from("\u{e9}").into();
    assert_eq!(Vec::<u8>::from(from_string), vec![0xc3, 0xa9]);
}

#[test]
fn topics_are_the_same_if_their_bytes_are() {
    let a: Topic = "chat".into();
    let b: Topic = b"chat".to_vec().into();
    let c: Topic = String::from("chats").into();
    assert_eq!(a, b);
    assert_ne!(a, c);
    assert_eq!(a.clone(), a);
}

/// The number of the channel that a subscriber is given a receiver of.
fn given(action: RunAction) -> usize {
    match action {
        RunAction::Open(number) | RunAction::Share(number) => number,
        RunAction::Stop | RunAction::Serve => panic!("no receiver"),
    }
}

fn subscription(name: &str) -> RunEvent {
    RunEvent::Subscription(name.into())
}

#[test]
fn every_subscriber_of_a_topic_is_given_its_channel() {
    let mut table = TopicTable::new();
    assert_eq!(table.step(subscription("a")), RunAction::Open(0));
    assert_eq!(table.step(subscription("b")), RunAction::Open(1));
    assert_eq!(table.step(subscription("a")), RunAction::Share(0));
    assert_eq!(table.step(subscription("b")), RunAction::Share(1));
    assert_eq!(table.step(subscription("")), RunAction::Open(2));
    assert_eq!(table.step(subscription("a")), RunAction::Share(0));
    assert_eq!(table.step(subscription("")), RunAction::Share(2));
}

#[test]
fn connections_are_served_and_a_shutdown_stops() {
    let mut table = TopicTable::new();
    assert_eq!(table.step(RunEvent::Connection), RunAction::Serve);
    assert_eq!(table.step(subscription("a")), RunAction::Open(0));
    assert_eq!(table.step(RunEvent::Connection), RunAction::Serve);
    assert_eq!(table.step(subscription("a")), RunAction::Share(0));
    assert!(table.accepts(&RunEvent::Shutdown));
    assert_eq!(table.step(RunEvent::Shutdown), RunAction::Stop);
    assert!(!table.accepts(&RunEvent::Connection));
    assert!(!table.accepts(&RunEvent::Shutdown));
    assert!(!table.accepts(&subscription("a")));
}

#[test]
fn subscribers_share_a_channel_exactly_if_their_topics_are_the_same() {
    let mut table = TopicTable::new();
    let names = ["chat", "news", "chat", "", "news", "chat"];
    let numbers: Vec<usize> = names.iter().map(|name| given(table.step(subscription(name)))).collect();
    for i in 0..names.len() {
        for j in 0..names.len() {
            assert_eq!(names[i] == names[j], numbers[i] == numbers[j]);
        }
    }
}
