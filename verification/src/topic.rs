//! Topics of events, and the topics that a server has channels for.

use vstd::prelude::*;
use vstd::slice::slice_to_vec;
use vstd::utf8::{decode_utf8, encode_utf8, encode_utf8_decode_utf8};

use crate::bytes::same_bytes;

verus! {

/// The name of a kind of events.
#[derive(Clone, Debug, PartialEq, Eq, Hash)]
pub struct Topic(Vec<u8>);

impl View for Topic {
    type V = Seq<u8>;

    closed spec fn view(&self) -> Seq<u8> {
        self.0@
    }
}

impl vstd::std_specs::convert::FromSpecImpl<Topic> for Vec<u8> {
    open spec fn obeys_from_spec() -> bool {
        false
    }

    open spec fn from_spec(v: Topic) -> Vec<u8> {
        arbitrary()
    }
}

impl From<Topic> for Vec<u8> {
    /// The bytes of a topic.
    fn from(topic: Topic) -> (r: Vec<u8>)
        ensures
            r@ == topic@,
    {
        topic.0
    }
}

impl vstd::std_specs::convert::FromSpecImpl<Vec<u8>> for Topic {
    open spec fn obeys_from_spec() -> bool {
        false
    }

    open spec fn from_spec(v: Vec<u8>) -> Topic {
        arbitrary()
    }
}

impl From<Vec<u8>> for Topic {
    /// The topic with these bytes.
    fn from(bytes: Vec<u8>) -> (r: Topic)
        ensures
            r@ == bytes@,
    {
        Topic(bytes)
    }
}

impl vstd::std_specs::convert::FromSpecImpl<&str> for Topic {
    open spec fn obeys_from_spec() -> bool {
        false
    }

    open spec fn from_spec(v: &str) -> Topic {
        arbitrary()
    }
}

impl From<&str> for Topic {
    /// The topic whose bytes are the text in UTF-8.
    fn from(text: &str) -> (r: Topic)
        ensures
            r@ == encode_utf8(text@),
    {
        Topic(slice_to_vec(text.as_bytes()))
    }
}

impl vstd::std_specs::convert::FromSpecImpl<String> for Topic {
    open spec fn obeys_from_spec() -> bool {
        false
    }

    open spec fn from_spec(v: String) -> Topic {
        arbitrary()
    }
}

impl From<String> for Topic {
    /// The topic whose bytes are the text in UTF-8.
    fn from(text: String) -> (r: Topic)
        ensures
            r@ == encode_utf8(text@),
    {
        Topic(slice_to_vec(text.as_str().as_bytes()))
    }
}

/// Two texts that differ name two different topics.
pub proof fn topics_of_texts_differ(a: Seq<char>, b: Seq<char>)
    requires
        encode_utf8(a) == encode_utf8(b),
    ensures
        a == b,
{
    encode_utf8_decode_utf8(a);
    encode_utf8_decode_utf8(b);
    assert(decode_utf8(encode_utf8(a)) == a);
}

/// What happens to a server that waits for connections.
#[derive(Debug, PartialEq, Eq)]
pub enum RunEvent {
    /// The application shuts the server down.
    Shutdown,
    /// A client connects.
    Connection,
    /// A connection subscribes to a topic.
    Subscription(Topic),
}

/// What a server that waits for connections has to do about an event.
#[derive(Debug, PartialEq, Eq)]
pub enum RunAction {
    /// Tell the connections to close, and stop.
    Stop,
    /// Serve the connection.
    Serve,
    /// Give the subscriber a receiver of the channel with this number.
    Share(usize),
    /// Open the channel with this number, and give the subscriber a receiver of it.
    Open(usize),
}

/// The state of a server that waits for connections: the topics that it has channels for,
/// in the order in which the channels were opened, and whether it is running. The channel
/// of a topic has the topic's number.
#[verifier::ext_equal]
pub struct RunModel {
    pub topics: Seq<Seq<u8>>,
    pub running: bool,
}

/// The state of a server that has started.
pub open spec fn run_start() -> RunModel {
    RunModel { topics: seq![], running: true }
}

/// Whether an event can happen in a state: any, until the server stops.
pub open spec fn run_accepts(s: RunModel, event: RunEvent) -> bool {
    s.running
}

/// Whether an event leads from one state to another, and the server does this about it.
pub open spec fn run_step(
    before: RunModel,
    event: RunEvent,
    after: RunModel,
    action: RunAction,
) -> bool {
    match event {
        RunEvent::Shutdown => after == (RunModel { running: false, ..before }) && action
            == RunAction::Stop,
        RunEvent::Connection => after == before && action == RunAction::Serve,
        RunEvent::Subscription(topic) => if before.topics.contains(topic@) {
            &&& after == before
            &&& action is Share
            &&& action->Share_0 < before.topics.len()
            &&& before.topics[action->Share_0 as int] == topic@
        } else {
            &&& after == (RunModel { topics: before.topics.push(topic@), ..before })
            &&& action is Open
            &&& action->Open_0 == before.topics.len()
        },
    }
}

/// A server that waits for connections: the topics that it has channels for, and whether
/// it is running.
pub struct TopicTable {
    topics: Vec<Topic>,
    running: bool,
}

impl View for TopicTable {
    type V = RunModel;

    closed spec fn view(&self) -> RunModel {
        RunModel {
            topics: self.topics@.map_values(|topic: Topic| topic@),
            running: self.running,
        }
    }
}

impl TopicTable {
    /// No topic occurs twice.
    pub open spec fn wf(&self) -> bool {
        self@.topics.no_duplicates()
    }

    /// No topic has a channel, and the server is running.
    pub fn new() -> (r: Self)
        ensures
            r.wf(),
            r@ == run_start(),
    {
        let r = TopicTable { topics: Vec::new(), running: true };
        assert(r@ =~= run_start());
        r
    }

    /// Whether an event can happen now.
    pub fn accepts(&self, event: &RunEvent) -> (r: bool)
        ensures
            r == run_accepts(self@, *event),
    {
        self.running
    }

    /// The number of a topic, if it has a channel.
    fn position(&self, topic: &Topic) -> (r: Option<usize>)
        ensures
            match r {
                Some(i) => i < self@.topics.len() && self@.topics[i as int] == topic@,
                None => !self@.topics.contains(topic@),
            },
    {
        let mut i: usize = 0;
        while i < self.topics.len()
            invariant
                i <= self.topics.len(),
                forall|j: int| 0 <= j < i ==> self@.topics[j] != topic@,
            decreases self.topics.len() - i,
        {
            if same_bytes(self.topics[i].0.as_slice(), topic.0.as_slice()) {
                return Some(i);
            }
            i += 1;
        }
        None
    }

    /// Takes an event, and says what to do about it.
    pub fn step(&mut self, event: RunEvent) -> (action: RunAction)
        requires
            old(self).wf(),
            run_accepts(old(self)@, event),
        ensures
            final(self).wf(),
            run_step(old(self)@, event, final(self)@, action),
    {
        match event {
            RunEvent::Shutdown => {
                self.running = false;
                RunAction::Stop
            },
            RunEvent::Connection => RunAction::Serve,
            RunEvent::Subscription(topic) => match self.position(&topic) {
                Some(i) => RunAction::Share(i),
                None => {
                    let i: usize = self.topics.len();
                    let ghost before = self@.topics;
                    self.topics.push(topic);
                    assert(self@.topics =~= before.push(topic@));
                    RunAction::Open(i)
                },
            },
        }
    }
}

/// The number of the channel that a subscriber is given a receiver of, if it is given one.
pub open spec fn given(action: RunAction) -> Option<int> {
    match action {
        RunAction::Share(i) => Some(i as int),
        RunAction::Open(i) => Some(i as int),
        _ => None,
    }
}

/// Whatever happens, no topic gets a second channel, and every channel keeps its
/// number.
pub proof fn channels_are_kept(
    before: RunModel,
    event: RunEvent,
    after: RunModel,
    action: RunAction,
)
    requires
        before.topics.no_duplicates(),
        run_step(before, event, after, action),
    ensures
        after.topics.no_duplicates(),
        before.topics.is_prefix_of(after.topics),
{
}

/// Every subscriber, the first to a topic included, is given a receiver of the channel of
/// its topic.
pub proof fn every_subscriber_is_given_its_topics_channel(
    before: RunModel,
    topic: Topic,
    after: RunModel,
    action: RunAction,
)
    requires
        run_step(before, RunEvent::Subscription(topic), after, action),
    ensures
        given(action) is Some,
        0 <= given(action)->0 < after.topics.len(),
        after.topics[given(action)->0] == topic@,
{
}

/// All subscribers of a topic share its channel, and no subscriber of another topic does.
pub proof fn subscribers_of_a_topic_share_its_channel(
    before: RunModel,
    topic: Topic,
    opened: RunModel,
    first: RunAction,
    later: RunModel,
    again: Topic,
    after: RunModel,
    second: RunAction,
)
    requires
        before.topics.no_duplicates(),
        run_step(before, RunEvent::Subscription(topic), opened, first),
        opened.topics.is_prefix_of(later.topics),
        later.topics.no_duplicates(),
        run_step(later, RunEvent::Subscription(again), after, second),
    ensures
        again@ == topic@ ==> second is Share,
        again@ == topic@ <==> given(second) == given(first),
{
    let n = given(first)->0;
    assert(opened.topics[n] == topic@);
    assert(later.topics[n] == topic@);
    assert(later.topics.contains(topic@));
}

/// After the stop nothing happens any more.
pub proof fn a_stop_is_final(before: RunModel, after: RunModel, action: RunAction, event: RunEvent)
    requires
        run_step(before, RunEvent::Shutdown, after, action),
    ensures
        action == RunAction::Stop,
        !run_accepts(after, event),
{
}

/// Every client that connects is served, whatever topics have channels.
pub proof fn every_connection_is_served(before: RunModel, after: RunModel, action: RunAction)
    requires
        run_step(before, RunEvent::Connection, after, action),
    ensures
        action == RunAction::Serve,
        after == before,
{
}

/// The first to subscribe to a topic has a channel opened, behind those that there are, and
/// nobody else has. No other topic gets a channel by it, and the server goes on running.
pub proof fn a_channel_is_opened_for_each_new_topic(
    before: RunModel,
    topic: Topic,
    after: RunModel,
    action: RunAction,
)
    requires
        run_step(before, RunEvent::Subscription(topic), after, action),
    ensures
        action is Open <==> forall|i: int|
            0 <= i < before.topics.len() ==> #[trigger] before.topics[i] != topic@,
        action is Open ==> {
            &&& action->Open_0 == before.topics.len()
            &&& after.topics == before.topics.push(topic@)
        },
        action !is Open ==> action is Share && after.topics == before.topics,
        after.running == before.running,
{
    if action !is Open {
        let i = choose|i: int| 0 <= i < before.topics.len() && before.topics[i] == topic@;
        assert(before.topics[i] == topic@);
    }
}

/// A server that has started has no channel, and takes everything until it stops.
pub proof fn a_running_server_takes_everything(s: RunModel, event: RunEvent)
    ensures
        run_start().running,
        run_start().topics.len() == 0,
        run_accepts(s, event) <==> s.running,
{
}

/// A topic made of bytes gives those bytes back.
pub proof fn a_topic_keeps_its_bytes(bytes: Vec<u8>, topic: Topic, again: Vec<u8>)
    requires
        call_ensures(<Topic as From<Vec<u8>>>::from, (bytes,), topic),
        call_ensures(<Vec<u8> as From<Topic>>::from, (topic,), again),
    ensures
        again@ == bytes@,
{
}

/// A topic made of a text gives that text back, so that two texts name the same topic exactly
/// if they are the same, however each of them is held.
pub proof fn a_topic_keeps_its_text(text: &str, topic: Topic, other: String, other_topic: Topic)
    requires
        call_ensures(<Topic as From<&str>>::from, (text,), topic),
        call_ensures(<Topic as From<String>>::from, (other,), other_topic),
    ensures
        decode_utf8(topic@) == text@,
        decode_utf8(other_topic@) == other@,
        topic@ == other_topic@ <==> text@ == other@,
{
    encode_utf8_decode_utf8(text@);
    encode_utf8_decode_utf8(other@);
}

}
