use coap_pubsub::client::{
    creation_request, data_path, listen_decision, measurement, parse_command, read_command,
    resource_url, Command, ListenAction,
};
use coap_pubsub::message::Observe;
use coap_pubsub::text::{bytes_of, characters, join, joined, split_words};

fn words(items: &[&str]) -> Vec<String> {
    items.iter().map(|item| item.to_string()).collect()
}

#[test]
fn menu_numbers_name_commands() {
    assert!(matches!(parse_command(&words(&["1"])), Command::TopicDiscovery));
    assert!(matches!(parse_command(&words(&["2", "abc123"])), Command::Subscribe(uri) if uri == "abc123"));
    assert!(matches!(parse_command(&words(&["3", "abc123"])), Command::Unsubscribe(uri) if uri == "abc123"));
    assert!(matches!(parse_command(&words(&["4", "weather"])), Command::CreateTopic(name) if name == "weather"));
    assert!(matches!(
        parse_command(&words(&["5", "abc123", "{\"temperature\":24}"])),
        Command::UpdateTopic(uri, payload) if uri == "abc123" && payload == "{\"temperature\":24}"
    ));
    assert!(matches!(parse_command(&words(&["6", "def456"])), Command::DeleteTopic(uri) if uri == "def456"));
    assert!(matches!(parse_command(&words(&["7"])), Command::MulticastDiscovery));
    assert!(matches!(parse_command(&words(&["8"])), Command::BrokerDiscovery));
    assert!(matches!(parse_command(&words(&["9", "abc123"])), Command::ReadLatest(uri) if uri == "abc123"));
    assert!(matches!(parse_command(&words(&["10"])), Command::ConfigurationDiscovery));
    assert!(matches!(parse_command(&words(&["11"])), Command::DataDiscovery));
    assert!(matches!(parse_command(&words(&["12"])), Command::CollectionDiscovery));
}

#[test]
fn command_names_name_commands() {
    assert!(matches!(parse_command(&words(&["topic name discovery"])), Command::TopicDiscovery));
    assert!(matches!(parse_command(&words(&["subscribe", "abc123"])), Command::Subscribe(uri) if uri == "abc123"));
    assert!(matches!(parse_command(&words(&["unsubscribe", "abc123"])), Command::Unsubscribe(uri) if uri == "abc123"));
    assert!(matches!(parse_command(&words(&["create topic", "w"])), Command::CreateTopic(name) if name == "w"));
    assert!(matches!(
        parse_command(&words(&["PUT", "abc123", "1"])),
        Command::UpdateTopic(uri, payload) if uri == "abc123" && payload == "1"
    ));
    assert!(matches!(parse_command(&words(&["DELETE", "def456"])), Command::DeleteTopic(uri) if uri == "def456"));
    assert!(matches!(
        parse_command(&words(&["multicast", "broker", "discovery", "uri", "query"])),
        Command::MulticastDiscovery
    ));
    assert!(matches!(parse_command(&words(&["broker", "discovery", "uri", "query"])), Command::BrokerDiscovery));
    assert!(matches!(
        parse_command(&words(&["read", "latest", "data", "abc123"])),
        Command::ReadLatest(uri) if uri == "abc123"
    ));
    assert!(matches!(parse_command(&words(&["topic", "configuration", "discovery"])), Command::ConfigurationDiscovery));
    assert!(matches!(parse_command(&words(&["topic", "data", "discovery"])), Command::DataDiscovery));
    assert!(matches!(parse_command(&words(&["topic", "collection", "discovery"])), Command::CollectionDiscovery));
}

#[test]
fn anything_else_is_invalid() {
    for line in [
        vec![],
        vec!["0"],
        vec!["13"],
        vec!["1", "extra"],
        vec!["2"],
        vec!["2", "a", "b"],
        vec!["5", "abc123"],
        vec!["put", "abc123", "1"],
        vec!["delete", "abc123"],
        vec!["7", "x"],
        vec!["multicast", "broker", "discovery", "uri"],
        vec!["multicast", "broker", "discovery", "uri", "queries"],
        vec!["broker", "discovery", "uri"],
        vec!["read", "latest", "data"],
        vec!["read", "latest", "news", "abc123"],
        vec!["topic", "configuration"],
        vec!["topic", "other", "discovery"],
        vec!["topic name discovery", "x"],
    ] {
        assert!(matches!(parse_command(&words(&line)), Command::Invalid), "{:?}", line);
    }
}

#[test]
fn lines_are_cut_at_white_space() {
    assert_eq!(split_words("  5 abc123\t{\"t\":1} \r\n"), words(&["5", "abc123", "{\"t\":1}"]));
    assert_eq!(split_words("a\u{a0}b\u{2003}c\u{3000}d"), words(&["a", "b", "c", "d"]));
    assert_eq!(split_words(" \n\t "), Vec::<String>::new());
    assert_eq!(split_words(""), Vec::<String>::new());
    assert_eq!(split_words("one"), words(&["one"]));
    for line in ["4 weather\n", " read   latest data abc123 ", "x\u{b}y\u{c}z\u{85}w", "é ü"] {
        let expected: Vec<String> = line.split_whitespace().map(String::from).collect();
        assert_eq!(split_words(line), expected);
    }
    assert!(matches!(read_command("  4   weather \n"), Command::CreateTopic(name) if name == "weather"));
    assert!(matches!(read_command("12\n"), Command::CollectionDiscovery));
    assert!(matches!(read_command("\n"), Command::Invalid));
}

#[test]
fn listening_ends_on_terminal_or_missing_observe() {
    assert_eq!(listen_decision(Observe::Value(1)), ListenAction::Finished);
    assert_eq!(listen_decision(Observe::Value(0)), ListenAction::Continue);
    assert_eq!(listen_decision(Observe::Value(10001)), ListenAction::Continue);
    assert_eq!(listen_decision(Observe::Value(10002)), ListenAction::Continue);
    assert_eq!(listen_decision(Observe::Malformed), ListenAction::MalformedObserve);
    assert_eq!(listen_decision(Observe::Absent), ListenAction::MissingObserve);
}

#[test]
fn requests_go_to_the_documented_places() {
    assert_eq!(data_path("abc123"), "ps/data/abc123");
    assert_eq!(resource_url("127.0.0.1:5683", "ps"), "coap://127.0.0.1:5683/ps");
    assert_eq!(resource_url("127.0.0.1:5683", "discovery"), "coap://127.0.0.1:5683/discovery");
    assert_eq!(resource_url("127.0.0.1:5683", &data_path("abc123")), "coap://127.0.0.1:5683/ps/data/abc123");
    assert_eq!(resource_url("[::1]:5683", "def456"), "coap://[::1]:5683/def456");
}

#[test]
fn creation_request_names_topic_and_type() {
    assert_eq!(creation_request("weather"), r#"{"resource-type":"core.ps.conf","topic-name":"weather"}"#);
    let body = creation_request("a \"b\"\n");
    let parsed: serde_json::Value = serde_json::from_str(&body).unwrap();
    assert_eq!(parsed["topic-name"].as_str(), Some("a \"b\"\n"));
    assert_eq!(parsed["resource-type"].as_str(), Some("core.ps.conf"));
}

#[test]
fn measurement_is_one_member() {
    assert_eq!(measurement("temperature", 24), r#"{"temperature":24}"#);
    assert_eq!(measurement("temperature", -7), r#"{"temperature":-7}"#);
    assert_eq!(measurement("t", 0), r#"{"t":0}"#);
    assert_eq!(measurement("max", i32::MAX), r#"{"max":2147483647}"#);
    assert_eq!(measurement("min", i32::MIN), r#"{"min":-2147483648}"#);
    assert_eq!(measurement("a\"b", 100), r#"{"a\"b":100}"#);
}

#[test]
fn text_helpers() {
    assert_eq!(characters("aé✓"), vec!['a', 'é', '✓']);
    assert_eq!(joined("ps/", "abc"), "ps/abc");
    assert_eq!(bytes_of("é"), vec![0xc3, 0xa9]);
    assert_eq!(join(&words(&["a", "b", "c"]), ", "), "a, b, c");
    assert_eq!(join(&words(&["a"]), ","), "a");
    assert_eq!(join(&words(&[]), ","), "");
    assert_eq!(join(&words(&["", ""]), "-"), "-");
}

#[test]
fn white_space_is_the_unicode_property() {
    let listed = |c: char| {
        let code = c as u32;
        (0x09..=0x0d).contains(&code)
            || code == 0x20
            || code == 0x85
            || code == 0xa0
            || code == 0x1680
            || (0x2000..=0x200a).contains(&code)
            || code == 0x2028
            || code == 0x2029
            || code == 0x202f
            || code == 0x205f
            || code == 0x3000
    };
    let mut count = 0;
    for c in (0..=0x10ffffu32).filter_map(char::from_u32) {
        assert_eq!(c.is_whitespace(), listed(c), "U+{:04X}", c as u32);
        if listed(c) {
            count += 1;
            let line = format!("a{}b", c);
            assert_eq!(split_words(&line), words(&["a", "b"]), "U+{:04X}", c as u32);
        }
    }
    assert_eq!(count, 25);
    for c in ['\u{1f}', '\u{180e}', '\u{200b}', '\u{2060}', '\u{feff}', '\u{0}', '_'] {
        let line = format!("a{}b", c);
        assert_eq!(split_words(&line), vec![line.clone()]);
    }
}
