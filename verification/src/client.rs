//! What a client of the broker decides: which command a line of input
//! asks for, when to stop listening for notifications, and where and with
//! what body it sends its requests.

use crate::json::{json_number, json_object, json_string, number, object_text, quoted};
use crate::message::{Observe, OBSERVE_TERMINAL};
use crate::text::{joined, same_text, split_words, words_of};
use vstd::prelude::*;
use vstd::string::*;

verus! {

/// The model of a command.
pub enum CommandView {
    TopicDiscovery,
    Subscribe(Seq<char>),
    Unsubscribe(Seq<char>),
    CreateTopic(Seq<char>),
    UpdateTopic(Seq<char>, Seq<char>),
    DeleteTopic(Seq<char>),
    MulticastDiscovery,
    BrokerDiscovery,
    ReadLatest(Seq<char>),
    ConfigurationDiscovery,
    DataDiscovery,
    CollectionDiscovery,
    Invalid,
}

/// What a line of input asks the client to do.
#[derive(Debug)]
pub enum Command {
    /// `1`: list all topics.
    TopicDiscovery,
    /// `2 <data identifier>`: subscribe.
    Subscribe(String),
    /// `3 <data identifier>`: unsubscribe.
    Unsubscribe(String),
    /// `4 <name>`: create a topic.
    CreateTopic(String),
    /// `5 <data identifier> <payload>`: publish.
    UpdateTopic(String, String),
    /// `6 <topic identifier>`: delete a topic.
    DeleteTopic(String),
    /// `7`: ask every broker in reach where it is.
    MulticastDiscovery,
    /// `8`: ask the broker where it is.
    BrokerDiscovery,
    /// `9 <data identifier>`: read what was published last.
    ReadLatest(String),
    /// `10`: list the topic configurations.
    ConfigurationDiscovery,
    /// `11`: list the data resources.
    DataDiscovery,
    /// `12`: list the topic collections.
    CollectionDiscovery,
    /// Anything else.
    Invalid,
}

impl View for Command {
    type V = CommandView;

    open spec fn view(&self) -> CommandView {
        match self {
            Command::TopicDiscovery => CommandView::TopicDiscovery,
            Command::Subscribe(uri) => CommandView::Subscribe(uri@),
            Command::Unsubscribe(uri) => CommandView::Unsubscribe(uri@),
            Command::CreateTopic(name) => CommandView::CreateTopic(name@),
            Command::UpdateTopic(uri, payload) => CommandView::UpdateTopic(uri@, payload@),
            Command::DeleteTopic(uri) => CommandView::DeleteTopic(uri@),
            Command::MulticastDiscovery => CommandView::MulticastDiscovery,
            Command::BrokerDiscovery => CommandView::BrokerDiscovery,
            Command::ReadLatest(uri) => CommandView::ReadLatest(uri@),
            Command::ConfigurationDiscovery => CommandView::ConfigurationDiscovery,
            Command::DataDiscovery => CommandView::DataDiscovery,
            Command::CollectionDiscovery => CommandView::CollectionDiscovery,
            Command::Invalid => CommandView::Invalid,
        }
    }
}

/// True when `words` has a word at `at`, and it is `expected`.
pub open spec fn word_at(words: Seq<Seq<char>>, at: int, expected: Seq<char>) -> bool {
    0 <= at < words.len() && words[at] == expected
}

/// True when the first `expected.len()` words are those of `expected`.
pub open spec fn starts_with(words: Seq<Seq<char>>, expected: Seq<Seq<char>>) -> bool {
    forall|k: int| 0 <= k < expected.len() ==> word_at(words, k, #[trigger] expected[k])
}

/// The command that the given words ask for: the number of a menu entry
/// or its name, followed by what the entry takes.
pub open spec fn command_of(words: Seq<Seq<char>>) -> CommandView {
    let n = words.len();
    if n == 1 && (words[0] == "1"@ || words[0] == "topic name discovery"@) {
        CommandView::TopicDiscovery
    } else if n == 2 && (words[0] == "2"@ || words[0] == "subscribe"@) {
        CommandView::Subscribe(words[1])
    } else if n == 2 && (words[0] == "3"@ || words[0] == "unsubscribe"@) {
        CommandView::Unsubscribe(words[1])
    } else if n == 2 && (words[0] == "4"@ || words[0] == "create topic"@) {
        CommandView::CreateTopic(words[1])
    } else if n == 3 && (words[0] == "5"@ || words[0] == "PUT"@) {
        CommandView::UpdateTopic(words[1], words[2])
    } else if n == 2 && (words[0] == "6"@ || words[0] == "DELETE"@) {
        CommandView::DeleteTopic(words[1])
    } else if (n == 1 && words[0] == "7"@) || (n == 5 && starts_with(
        words,
        seq!["multicast"@, "broker"@, "discovery"@, "uri"@],
    ) && words[4] == "query"@) {
        CommandView::MulticastDiscovery
    } else if (n == 1 && words[0] == "8"@) || (n == 4 && starts_with(
        words,
        seq!["broker"@, "discovery"@, "uri"@, "query"@],
    )) {
        CommandView::BrokerDiscovery
    } else if (n == 2 && words[0] == "9"@) || (n == 4 && starts_with(
        words,
        seq!["read"@, "latest"@, "data"@],
    )) {
        CommandView::ReadLatest(words.last())
    } else if (n == 1 && words[0] == "10"@) || (n == 3 && starts_with(
        words,
        seq!["topic"@, "configuration"@, "discovery"@],
    )) {
        CommandView::ConfigurationDiscovery
    } else if (n == 1 && words[0] == "11"@) || (n == 3 && starts_with(
        words,
        seq!["topic"@, "data"@, "discovery"@],
    )) {
        CommandView::DataDiscovery
    } else if (n == 1 && words[0] == "12"@) || (n == 3 && starts_with(
        words,
        seq!["topic"@, "collection"@, "discovery"@],
    )) {
        CommandView::CollectionDiscovery
    } else {
        CommandView::Invalid
    }
}

/// True when the word at `at` is `expected`.
fn word_is(words: &Vec<String>, at: usize, expected: &str) -> (matches: bool)
    ensures
        matches == word_at(words.deep_view(), at as int, expected@),
{
    at < words.len() && same_text(words[at].as_str(), expected)
}

/// True when the words begin with the three given ones.
fn begins3(words: &Vec<String>, first: &str, second: &str, third: &str) -> (matches: bool)
    ensures
        matches == starts_with(words.deep_view(), seq![first@, second@, third@]),
{
    let matches = word_is(words, 0, first) && word_is(words, 1, second) && word_is(
        words,
        2,
        third,
    );
    proof {
        let expected = seq![first@, second@, third@];
        if starts_with(words.deep_view(), expected) {
            assert(word_at(words.deep_view(), 0, expected[0]));
            assert(word_at(words.deep_view(), 1, expected[1]));
            assert(word_at(words.deep_view(), 2, expected[2]));
        }
    }
    matches
}

/// True when the words begin with the four given ones.
fn begins4(
    words: &Vec<String>,
    first: &str,
    second: &str,
    third: &str,
    fourth: &str,
) -> (matches: bool)
    ensures
        matches == starts_with(words.deep_view(), seq![first@, second@, third@, fourth@]),
{
    let matches = word_is(words, 0, first) && word_is(words, 1, second) && word_is(
        words,
        2,
        third,
    ) && word_is(words, 3, fourth);
    proof {
        let expected = seq![first@, second@, third@, fourth@];
        if starts_with(words.deep_view(), expected) {
            assert(word_at(words.deep_view(), 0, expected[0]));
            assert(word_at(words.deep_view(), 1, expected[1]));
            assert(word_at(words.deep_view(), 2, expected[2]));
            assert(word_at(words.deep_view(), 3, expected[3]));
        }
    }
    matches
}

/// Finds the command that the given words ask for.
pub fn parse_command(words: &Vec<String>) -> (command: Command)
    ensures
        command@ == command_of(words.deep_view()),
{
    let n = words.len();
    if n == 1 && (word_is(words, 0, "1") || word_is(words, 0, "topic name discovery")) {
        Command::TopicDiscovery
    } else if n == 2 && (word_is(words, 0, "2") || word_is(words, 0, "subscribe")) {
        Command::Subscribe(words[1].clone())
    } else if n == 2 && (word_is(words, 0, "3") || word_is(words, 0, "unsubscribe")) {
        Command::Unsubscribe(words[1].clone())
    } else if n == 2 && (word_is(words, 0, "4") || word_is(words, 0, "create topic")) {
        Command::CreateTopic(words[1].clone())
    } else if n == 3 && (word_is(words, 0, "5") || word_is(words, 0, "PUT")) {
        Command::UpdateTopic(words[1].clone(), words[2].clone())
    } else if n == 2 && (word_is(words, 0, "6") || word_is(words, 0, "DELETE")) {
        Command::DeleteTopic(words[1].clone())
    } else if (n == 1 && word_is(words, 0, "7")) || (n == 5 && begins4(
        words,
        "multicast",
        "broker",
        "discovery",
        "uri",
    ) && word_is(words, 4, "query")) {
        Command::MulticastDiscovery
    } else if (n == 1 && word_is(words, 0, "8")) || (n == 4 && begins4(
        words,
        "broker",
        "discovery",
        "uri",
        "query",
    )) {
        Command::BrokerDiscovery
    } else if (n == 2 && word_is(words, 0, "9")) || (n == 4 && begins3(
        words,
        "read",
        "latest",
        "data",
    )) {
        Command::ReadLatest(words[n - 1].clone())
    } else if (n == 1 && word_is(words, 0, "10")) || (n == 3 && begins3(
        words,
        "topic",
        "configuration",
        "discovery",
    )) {
        Command::ConfigurationDiscovery
    } else if (n == 1 && word_is(words, 0, "11")) || (n == 3 && begins3(
        words,
        "topic",
        "data",
        "discovery",
    )) {
        Command::DataDiscovery
    } else if (n == 1 && word_is(words, 0, "12")) || (n == 3 && begins3(
        words,
        "topic",
        "collection",
        "discovery",
    )) {
        Command::CollectionDiscovery
    } else {
        Command::Invalid
    }
}

/// Finds the command that a line of input asks for.
pub fn read_command(line: &str) -> (command: Command)
    ensures
        command@ == command_of(words_of(line@)),
{
    let words = split_words(line);
    parse_command(&words)
}

/// What a listening client does after a message.
#[derive(Clone, Copy, Debug, PartialEq, Eq, Structural)]
pub enum ListenAction {
    /// Keep listening: the observation goes on.
    Continue,
    /// Stop: the message ended the observation.
    Finished,
    /// Stop: the Observe option of the message holds no number.
    MalformedObserve,
    /// Stop: the message has no Observe option.
    MissingObserve,
}

/// What a listening client does after a message with the given Observe
/// option: it goes on unless the option is missing, holds no number or
/// holds the value that ends an observation.
pub open spec fn listen_action(observe: Observe) -> ListenAction {
    match observe {
        Observe::Value(value) => if value == OBSERVE_TERMINAL {
            ListenAction::Finished
        } else {
            ListenAction::Continue
        },
        Observe::Malformed => ListenAction::MalformedObserve,
        Observe::Absent => ListenAction::MissingObserve,
    }
}

/// Decides what a listening client does after a message with the given
/// Observe option.
pub fn listen_decision(observe: Observe) -> (action: ListenAction)
    ensures
        action == listen_action(observe),
{
    match observe {
        Observe::Value(value) => {
            if value == OBSERVE_TERMINAL {
                ListenAction::Finished
            } else {
                ListenAction::Continue
            }
        },
        Observe::Malformed => ListenAction::MalformedObserve,
        Observe::Absent => ListenAction::MissingObserve,
    }
}

/// The path under which the data of a topic is published, read and
/// observed.
pub fn data_path(topic_data_uri: &str) -> (path: String)
    ensures
        path@ == "ps/data/"@ + topic_data_uri@,
{
    joined("ps/data/", topic_data_uri)
}

/// The address of a resource of the broker at `address`.
pub fn resource_url(address: &str, path: &str) -> (url: String)
    ensures
        url@ == "coap://"@ + address@ + "/"@ + path@,
{
    let mut url = joined("coap://", address);
    url.append("/");
    url.append(path);
    url
}

/// The body of a request that creates the topic configuration
/// `topic_name`.
pub open spec fn creation_request_body(topic_name: Seq<char>) -> Seq<char> {
    object_text(
        seq![
            (json_string("resource-type"@), json_string("core.ps.conf"@)),
            (json_string("topic-name"@), json_string(topic_name)),
        ],
    )
}

/// Writes the body of a request that creates the topic configuration
/// `topic_name`.
pub fn creation_request(topic_name: &str) -> (body: String)
    ensures
        body@ == creation_request_body(topic_name@),
{
    let mut members: Vec<(String, String)> = Vec::new();
    members.push((quoted("resource-type"), quoted("core.ps.conf")));
    members.push((quoted("topic-name"), quoted(topic_name)));
    proof {
        assert(members.deep_view() =~= seq![
            (members@[0].0@, members@[0].1@),
            (members@[1].0@, members@[1].1@),
        ]);
    }
    json_object(&members)
}

/// Writes the payload by which a sensor publishes one measurement: a JSON
/// object with the one member `key`, holding `value`.
pub fn measurement(key: &str, value: i32) -> (payload: String)
    ensures
        payload@ == object_text(seq![(json_string(key@), json_number(value as int))]),
{
    let mut members: Vec<(String, String)> = Vec::new();
    members.push((quoted(key), number(value)));
    proof {
        assert(members.deep_view() =~= seq![(members@[0].0@, members@[0].1@)]);
    }
    json_object(&members)
}

} // verus!
