use coap_lite::link_format::{LinkFormatWrite, LINK_ATTR_CONTENT_FORMAT, LINK_ATTR_RESOURCE_TYPE};
use coap_pubsub::broker::{notification, notify_all, Broker};
use coap_pubsub::endpoint::Endpoint;
use coap_pubsub::error::BrokerError;
use coap_pubsub::json::{json_array, json_object};
use coap_pubsub::message::{ContentFormat, Method, Observe, Request, Response, Status};
use coap_pubsub::model::SubscriptionAction;

fn endpoint(port: u16) -> Endpoint {
    Endpoint::V4 { octets: 0xc0a8_0001, port }
}

fn broker() -> Broker {
    Broker::new("coap://127.0.0.1:5683".to_string())
}

fn request(method: Method, path: &str, payload: &[u8], observe: Observe) -> Request {
    Request { method, path: path.to_string(), payload: payload.to_vec(), source: endpoint(1), observe }
}

fn text(response: &Response) -> String {
    String::from_utf8(response.payload.clone()).unwrap()
}

fn create(broker: &mut Broker, name: &str, topic_uri: &str, data_uri: &str) {
    let created = broker.create_topic_under(
        name.to_string(),
        "core.ps.conf".to_string(),
        topic_uri.to_string(),
        data_uri.to_string(),
    );
    assert_eq!(created.map(|response| response.status), Ok(Status::Created));
}

#[test]
fn creation_under_given_identifiers() {
    let mut broker = broker();
    let created = broker
        .create_topic_under("weather".to_string(), "core.ps.conf".to_string(), "abc123".to_string(), "def456".to_string())
        .unwrap();
    assert_eq!(created.status, Status::Created);
    assert_eq!(created.content_format, None);
    assert_eq!(created.observe, None);
    assert_eq!(
        text(&created),
        r#"{"Location-Path":"ps/abc123","resource-type":"core.ps.conf","topic-data":"ps/data/def456","topic-name":"weather"}"#
    );
    let topics = broker.get_collection().get_topics();
    assert_eq!(topics.len(), 1);
    assert!(topics[0].half_created);
    assert_eq!(topics[0].get_topic_uri(), "abc123");
    assert_eq!(topics[0].get_topic_data(), "def456");
    assert_eq!(topics[0].get_dr().get_data_uri(), "def456");
    assert_eq!(topics[0].get_dr().get_parent_topic_uri(), "abc123");
    assert!(topics[0].get_dr().get_subscribers().is_empty());
}

#[test]
fn creation_refuses_taken_identifiers() {
    let mut broker = broker();
    create(&mut broker, "one", "aaaaaa", "bbbbbb");
    let conflict = |broker: &mut Broker, topic_uri: &str, data_uri: &str| {
        broker
            .create_topic_under("two".to_string(), "core.ps.conf".to_string(), topic_uri.to_string(), data_uri.to_string())
            .map(|response| response.status)
    };
    assert_eq!(conflict(&mut broker, "aaaaaa", "cccccc"), Err(BrokerError::Conflict));
    assert_eq!(conflict(&mut broker, "cccccc", "bbbbbb"), Err(BrokerError::Conflict));
    assert_eq!(conflict(&mut broker, "bbbbbb", "cccccc"), Err(BrokerError::Conflict));
    assert_eq!(conflict(&mut broker, "cccccc", "aaaaaa"), Err(BrokerError::Conflict));
    assert_eq!(conflict(&mut broker, "cccccc", "cccccc"), Err(BrokerError::Conflict));
    assert_eq!(broker.get_collection().get_topics().len(), 1);
    assert_eq!(conflict(&mut broker, "cccccc", "dddddd"), Ok(Status::Created));
    assert_eq!(broker.get_collection().get_topics().len(), 2);
}

#[test]
fn created_topics_get_distinct_identifiers() {
    let mut broker = broker();
    for _ in 0..50 {
        let response = broker.create_topic(&"weather".to_string(), &"core.ps.conf".to_string());
        assert_eq!(response.status, Status::Created);
    }
    let topics = broker.get_collection().get_topics();
    assert_eq!(topics.len(), 50);
    let mut seen = std::collections::BTreeSet::new();
    for topic in topics.iter() {
        assert!(topic.half_created);
        assert!(seen.insert(topic.get_topic_uri()));
        assert!(seen.insert(topic.get_topic_data().to_string()));
    }
    assert_eq!(seen.len(), 100);
}

#[test]
fn malformed_creation_bodies_are_bad_requests() {
    let mut broker = broker();
    let bodies: [&[u8]; 8] = [
        b"",
        b"not json",
        b"{\"topic-name\":\"weather\"",
        b"{\"topic-name\":\"weather\"}",
        b"{\"resource-type\":\"core.ps.conf\"}",
        b"{\"topic-name\":7,\"resource-type\":\"core.ps.conf\"}",
        b"[\"topic-name\",\"resource-type\"]",
        b"{\"topic-name\":\"we\xffather\",\"resource-type\":\"core.ps.conf\"}",
    ];
    for body in bodies {
        let reply = broker.handle_request(&request(Method::Post, "ps", body, Observe::Absent));
        assert_eq!(reply.response.status, Status::BadRequest);
        assert_eq!(reply.response.status.code(), (4, 0));
        assert_eq!(text(&reply.response), "Bad request");
        assert!(reply.notifications.is_empty());
    }
    assert!(broker.get_collection().get_topics().is_empty());
    assert_eq!(broker.create_from(None, Some("core.ps.conf".to_string())).status, Status::BadRequest);
    assert_eq!(broker.create_from(Some("weather".to_string()), None).status, Status::BadRequest);
    assert_eq!(broker.create_from(None, None).status, Status::BadRequest);
    assert_eq!(
        broker.create_from(Some("weather".to_string()), Some("core.ps.conf".to_string())).status,
        Status::Created
    );
}

#[test]
fn creation_reads_name_and_type_from_the_body() {
    let mut broker = broker();
    let body = r#" { "extra": [1, 2], "resource-type" : "core.ps.other", "topic-name": "café \"A\"" } "#;
    let response = broker.handle_post(&request(Method::Post, "ps", body.as_bytes(), Observe::Absent));
    assert_eq!(response.status, Status::Created);
    let topics = broker.get_collection().get_topics();
    assert_eq!(topics[0].get_topic_name(), "café \"A\"");
    assert_eq!(topics[0].get_resource_type(), "core.ps.other");
    let parsed: serde_json::Value = serde_json::from_slice(&response.payload).unwrap();
    assert_eq!(parsed["topic-name"].as_str(), Some("café \"A\""));
    assert_eq!(parsed["resource-type"].as_str(), Some("core.ps.other"));
    assert_eq!(parsed["Location-Path"].as_str(), Some(format!("ps/{}", topics[0].get_topic_uri()).as_str()));
    assert_eq!(parsed["topic-data"].as_str(), Some(format!("ps/data/{}", topics[0].get_topic_data()).as_str()));
}

#[test]
fn publish_of_invalid_utf8_is_a_bad_request() {
    let mut broker = broker();
    create(&mut broker, "weather", "aaaaaa", "bbbbbb");
    for path in ["ps/data/bbbbbb", "ps/data/nobody"] {
        let reply = broker.handle_put(&request(Method::Put, path, b"\xc3\x28", Observe::Absent));
        assert_eq!(reply.response.status, Status::BadRequest);
        assert_eq!(text(&reply.response), "Bad request");
        assert!(reply.notifications.is_empty());
    }
    assert!(broker.get_collection().get_topics()[0].half_created);
}

#[test]
fn publish_to_unknown_data_is_not_found() {
    let mut broker = broker();
    create(&mut broker, "weather", "aaaaaa", "bbbbbb");
    let reply = broker.update_topic_data("aaaaaa", &b"1".to_vec());
    assert_eq!(reply.response.status, Status::NotFound);
    assert_eq!(reply.response.payload, Vec::<u8>::new());
    assert!(reply.notifications.is_empty());
    assert!(broker.get_collection().get_topics()[0].half_created);
}

#[test]
fn publish_keeps_bytes_verbatim() {
    let mut broker = broker();
    create(&mut broker, "weather", "aaaaaa", "bbbbbb");
    let payload = "{\"t\":\"−40 °C ✓\"}\n".as_bytes().to_vec();
    let first = broker.update_topic_data("bbbbbb", &payload);
    assert_eq!(first.response.status, Status::Created);
    assert_eq!(broker.handle_get_latest_data("bbbbbb").payload, payload);
    let empty = broker.update_topic_data("bbbbbb", &Vec::new());
    assert_eq!(empty.response.status, Status::Changed);
    let read = broker.handle_get_latest_data("bbbbbb");
    assert_eq!(read.status, Status::Content);
    assert_eq!(read.payload, Vec::<u8>::new());
}

#[test]
fn subscription_to_half_created_topic_is_not_found() {
    let mut broker = broker();
    create(&mut broker, "weather", "aaaaaa", "bbbbbb");
    let response = broker.handle_subscription("bbbbbb", endpoint(1), SubscriptionAction::Subscribe);
    assert_eq!(response.status, Status::NotFound);
    assert_eq!(response.observe, Some(1));
    assert_eq!(text(&response), "Topic not found");
    assert!(broker.get_collection().get_topics()[0].get_dr().get_subscribers().is_empty());
}

#[test]
fn subscription_to_unknown_data_is_not_found() {
    let mut broker = broker();
    for action in [SubscriptionAction::Subscribe, SubscriptionAction::Unsubscribe] {
        let response = broker.handle_subscription("nobody", endpoint(1), action);
        assert_eq!(response.status, Status::NotFound);
        assert_eq!(response.observe, Some(1));
        assert_eq!(text(&response), "Topic not found");
    }
}

#[test]
fn second_subscription_changes_nothing() {
    let mut broker = broker();
    create(&mut broker, "weather", "aaaaaa", "bbbbbb");
    broker.update_topic_data("bbbbbb", &b"1".to_vec());
    let first = broker.handle_subscription("bbbbbb", endpoint(1), SubscriptionAction::Subscribe);
    let once = broker.get_collection().get_topics()[0].get_dr().get_subscribers().clone();
    let second = broker.handle_subscription("bbbbbb", endpoint(1), SubscriptionAction::Subscribe);
    assert_eq!(broker.get_collection().get_topics()[0].get_dr().get_subscribers(), &once);
    assert_eq!(once, vec![endpoint(1)]);
    assert_eq!(first.status, second.status);
    assert_eq!(first.payload, second.payload);
    assert_eq!(first.observe, second.observe);
    assert_eq!(first.content_format, second.content_format);
}

#[test]
fn subscribe_then_unsubscribe_leaves_subscribers_as_they_were() {
    let mut broker = broker();
    create(&mut broker, "weather", "aaaaaa", "bbbbbb");
    broker.update_topic_data("bbbbbb", &b"1".to_vec());
    broker.handle_subscription("bbbbbb", endpoint(1), SubscriptionAction::Subscribe);
    broker.handle_subscription("bbbbbb", endpoint(2), SubscriptionAction::Subscribe);
    let before = broker.get_collection().get_topics()[0].get_dr().get_subscribers().clone();
    broker.handle_subscription("bbbbbb", endpoint(3), SubscriptionAction::Subscribe);
    broker.handle_subscription("bbbbbb", endpoint(3), SubscriptionAction::Unsubscribe);
    assert_eq!(broker.get_collection().get_topics()[0].get_dr().get_subscribers(), &before);
}

#[test]
fn deleted_topic_notifies_nobody() {
    let mut broker = broker();
    create(&mut broker, "weather", "aaaaaa", "bbbbbb");
    create(&mut broker, "traffic", "cccccc", "dddddd");
    broker.update_topic_data("bbbbbb", &b"1".to_vec());
    broker.update_topic_data("dddddd", &b"1".to_vec());
    broker.handle_subscription("bbbbbb", endpoint(1), SubscriptionAction::Subscribe);
    broker.handle_subscription("dddddd", endpoint(2), SubscriptionAction::Subscribe);
    assert_eq!(broker.delete_topic("aaaaaa").status, Status::Deleted);
    assert!(broker.get_collection().find_topic_by_uri("aaaaaa").is_none());
    let lost = broker.update_topic_data("bbbbbb", &b"2".to_vec());
    assert_eq!(lost.response.status, Status::NotFound);
    assert!(lost.notifications.is_empty());
    let kept = broker.update_topic_data("dddddd", &b"2".to_vec());
    assert_eq!(kept.notifications.len(), 1);
    assert_eq!(kept.notifications[0].recipient, endpoint(2));
    create(&mut broker, "weather", "aaaaaa", "bbbbbb");
    let fresh = broker.update_topic_data("bbbbbb", &b"3".to_vec());
    assert_eq!(fresh.response.status, Status::Created);
    assert!(fresh.notifications.is_empty());
}

#[test]
fn invalid_requests_are_answered() {
    let mut broker = broker();
    create(&mut broker, "weather", "aaaaaa", "bbbbbb");
    broker.update_topic_data("bbbbbb", &b"1".to_vec());
    broker.handle_subscription("bbbbbb", endpoint(2), SubscriptionAction::Subscribe);
    for observe in [Observe::Value(2), Observe::Value(10001), Observe::Value(u32::MAX), Observe::Malformed] {
        let response = broker.handle_get(&request(Method::Get, "ps/data/bbbbbb", b"", observe));
        assert_eq!(response.status, Status::NotFound);
        assert_eq!(response.status.code(), (4, 4));
        assert_eq!(text(&response), "Not found");
        assert_eq!(response.observe, None);
        assert_eq!(broker.get_collection().get_topics()[0].get_dr().get_subscribers(), &vec![endpoint(2)]);
    }
    for path in ["foo/bar", "ps/data", "ps/data/bbbbbb/extra"] {
        let response = broker.handle_get(&request(Method::Get, path, b"", Observe::Absent));
        assert_eq!(response.status, Status::NotFound);
        assert_eq!(broker.get_collection().get_topics()[0].get_dr().get_subscribers(), &vec![endpoint(2)]);
    }
    let short = broker.handle_put(&request(Method::Put, "ps/data", b"1", Observe::Absent));
    assert_eq!(short.response.status, Status::BadRequest);
    assert_eq!(text(&short.response), "Bad request");
    let unknown = broker.handle_get(&request(Method::Get, "nowhere", b"", Observe::Absent));
    assert_eq!(unknown.status, Status::NotFound);
    assert_eq!(text(&unknown), "Not found");
    let deleted = broker.handle_delete(&request(Method::Delete, "ps/data/bbbbbb", b"", Observe::Absent));
    assert_eq!(deleted.status, Status::NotFound);
    let other = broker.handle_request(&request(Method::Other, "discovery", b"", Observe::Absent));
    assert_eq!(other.response.status, Status::NotFound);
    assert_eq!(text(&Broker::handle_invalid_path()), "Not found");
    assert_eq!(Broker::handle_invalid_path().status, Status::NotFound);
    assert_eq!(broker.get_collection().get_topics().len(), 1);
}

#[test]
fn listing_is_written_as_serde_json_writes_it() {
    let mut broker = broker();
    let names = ["weather", "quote \" backslash \\ slash /", "tab\tline\nreturn\rbell\u{7}", "caf\u{e9} \u{1f600} \u{7f}", ""];
    let mut expected: Vec<(String, (String, String))> = Vec::new();
    for (i, name) in names.iter().enumerate() {
        let topic_uri = format!("topic{}", i);
        let data_uri = format!("data0{}", i);
        create(&mut broker, name, &topic_uri, &data_uri);
        expected.push((name.to_string(), (format!("topic:{}", topic_uri), format!("data:{}", data_uri))));
    }
    let response = broker.handle_discovery();
    assert_eq!(response.status, Status::Content);
    assert_eq!(response.content_format, None);
    assert_eq!(text(&response), serde_json::to_string(&expected).unwrap());
    let parsed: Vec<(String, (String, String))> = serde_json::from_slice(&response.payload).unwrap();
    assert_eq!(parsed, expected);
}

#[test]
fn every_control_character_is_escaped_as_serde_json_escapes_it() {
    let mut broker = broker();
    let name: String = (0u32..0x80).filter_map(char::from_u32).collect();
    create(&mut broker, &name, "aaaaaa", "bbbbbb");
    let expected = vec![(name, ("topic:aaaaaa".to_string(), "data:bbbbbb".to_string()))];
    assert_eq!(text(&broker.handle_discovery()), serde_json::to_string(&expected).unwrap());
}

#[test]
fn creation_body_is_written_as_serde_json_writes_it() {
    let mut broker = broker();
    let name = "a \"name\"\\ with\u{1}controls\n";
    let kind = "core.ps.conf";
    let response = broker
        .create_topic_under(name.to_string(), kind.to_string(), "abc123".to_string(), "def456".to_string())
        .unwrap();
    let mut expected = std::collections::BTreeMap::new();
    expected.insert("Location-Path", "ps/abc123");
    expected.insert("topic-name", name);
    expected.insert("topic-data", "ps/data/def456");
    expected.insert("resource-type", kind);
    assert_eq!(text(&response), serde_json::to_string(&expected).unwrap());
}

#[test]
fn json_arrays_and_objects_are_joined_by_commas() {
    assert_eq!(json_array(&vec![]), "[]");
    assert_eq!(json_array(&vec!["1".to_string()]), "[1]");
    assert_eq!(json_array(&vec!["1".to_string(), "\"a\"".to_string(), "[]".to_string()]), "[1,\"a\",[]]");
    assert_eq!(json_object(&vec![]), "{}");
    assert_eq!(json_object(&vec![("\"a\"".to_string(), "1".to_string())]), "{\"a\":1}");
    assert_eq!(
        json_object(&vec![("\"a\"".to_string(), "1".to_string()), ("\"b\"".to_string(), "null".to_string())]),
        "{\"a\":1,\"b\":null}"
    );
}

#[test]
fn discovery_is_written_as_coap_lite_writes_it() {
    let mut broker = broker();
    create(&mut broker, "one", "aaaaaa", "bbbbbb");
    create(&mut broker, "two", "cccccc", "dddddd");
    broker
        .create_topic_under("three".to_string(), "core.ps.other".to_string(), "eeeeee".to_string(), "ffffff".to_string())
        .unwrap();

    let mut expected = String::new();
    let mut writer = LinkFormatWrite::new(&mut expected);
    writer.set_add_newlines(true);
    writer.link("/ps/aaaaaa").attr(LINK_ATTR_RESOURCE_TYPE, "core.ps.conf");
    writer.link("/ps/cccccc").attr(LINK_ATTR_RESOURCE_TYPE, "core.ps.conf");
    let conf = broker.handle_topic_configuration_discovery();
    assert_eq!(text(&conf), expected);
    assert_eq!(text(&conf), "</ps/aaaaaa>;rt=\"core.ps.conf\",\n\r</ps/cccccc>;rt=\"core.ps.conf\"");
    assert_eq!(conf.content_format, Some(ContentFormat::LinkFormat));

    let mut expected = String::new();
    let mut writer = LinkFormatWrite::new(&mut expected);
    writer.set_add_newlines(true);
    for target in ["/ps/data/bbbbbb", "/ps/data/dddddd", "/ps/data/ffffff"] {
        writer.link(target).attr(LINK_ATTR_RESOURCE_TYPE, "core.ps.data");
    }
    assert_eq!(text(&broker.handle_topic_data_discovery()), expected);

    let mut expected = String::new();
    let mut writer = LinkFormatWrite::new(&mut expected);
    writer.set_add_newlines(true);
    writer
        .link("/ps")
        .attr(LINK_ATTR_RESOURCE_TYPE, "core.ps.coll")
        .attr(LINK_ATTR_CONTENT_FORMAT, "40");
    assert_eq!(text(&broker.handle_topic_collection_discovery()), expected);

    let mut expected = String::new();
    LinkFormatWrite::new(&mut expected).link("coap://127.0.0.1:5683").attr(LINK_ATTR_RESOURCE_TYPE, "core.ps");
    assert_eq!(text(&broker.handle_broker_discovery()), expected);
}

#[test]
fn discovery_targets_are_written_verbatim() {
    let mut broker = Broker::new("coap://[::1]:5683/a \"b\"".to_string());
    assert_eq!(text(&broker.handle_broker_discovery()), "<coap://[::1]:5683/a \"b\">;rt=\"core.ps\"");
    create(&mut broker, "one", "a>b", "c,d");
    assert_eq!(text(&broker.handle_topic_configuration_discovery()), "</ps/a>b>;rt=\"core.ps.conf\"");
    assert_eq!(text(&broker.handle_topic_data_discovery()), "</ps/data/c,d>;rt=\"core.ps.data\"");
}

#[test]
fn notifications_name_each_subscriber_once() {
    let payload = b"{\"temperature\":25}".to_vec();
    let one = notification(endpoint(4), payload.clone());
    assert_eq!(one.recipient, endpoint(4));
    assert_eq!(one.message.status, Status::Changed);
    assert_eq!(one.message.payload, payload);
    assert_eq!(one.message.content_format, Some(ContentFormat::Notification));
    assert_eq!(one.message.observe, Some(10002));
    let all = notify_all(&vec![endpoint(3), endpoint(1), endpoint(2)], &payload);
    let recipients: Vec<Endpoint> = all.iter().map(|n| n.recipient).collect();
    assert_eq!(recipients, vec![endpoint(3), endpoint(1), endpoint(2)]);
    assert!(all.iter().all(|n| n.message.payload == payload && n.message.observe == Some(10002)));
    assert!(notify_all(&vec![], &payload).is_empty());
}

#[test]
fn publishes_in_a_row_notify_in_order() {
    let mut broker = broker();
    create(&mut broker, "weather", "aaaaaa", "bbbbbb");
    create(&mut broker, "traffic", "cccccc", "dddddd");
    broker.update_topic_data("bbbbbb", &b"0".to_vec());
    broker.update_topic_data("dddddd", &b"0".to_vec());
    broker.handle_subscription("bbbbbb", endpoint(1), SubscriptionAction::Subscribe);
    broker.handle_subscription("bbbbbb", endpoint(2), SubscriptionAction::Subscribe);
    broker.handle_subscription("dddddd", endpoint(3), SubscriptionAction::Subscribe);

    let payloads: Vec<Vec<u8>> = (1..=20).map(|n| format!("{{\"n\":{}}}", n).into_bytes()).collect();
    let (responses, notifications) = broker.publish_all("bbbbbb", &payloads);
    assert_eq!(responses.len(), 20);
    assert!(responses.iter().all(|response| response.status == Status::Changed));
    assert_eq!(notifications.len(), 40);
    for subscriber in [endpoint(1), endpoint(2)] {
        let received: Vec<Vec<u8>> = notifications
            .iter()
            .filter(|notification| notification.recipient == subscriber)
            .map(|notification| notification.message.payload.clone())
            .collect();
        assert_eq!(received, payloads);
    }
    assert!(notifications.iter().all(|notification| notification.recipient != endpoint(3)));
    assert_eq!(broker.handle_get_latest_data("bbbbbb").payload, payloads[19]);

    let (responses, notifications) = broker.publish_all("bbbbbb", &vec![b"a".to_vec(), b"\xff".to_vec(), b"c".to_vec()]);
    let codes: Vec<Status> = responses.iter().map(|response| response.status).collect();
    assert_eq!(codes, vec![Status::Changed, Status::BadRequest, Status::Changed]);
    let first: Vec<Vec<u8>> = notifications
        .iter()
        .filter(|notification| notification.recipient == endpoint(1))
        .map(|notification| notification.message.payload.clone())
        .collect();
    assert_eq!(first, vec![b"a".to_vec(), b"c".to_vec()]);

    let (responses, notifications) = broker.publish_all("nobody", &payloads);
    assert!(responses.iter().all(|response| response.status == Status::NotFound));
    assert!(notifications.is_empty());
    let (responses, notifications) = broker.publish_all("bbbbbb", &vec![]);
    assert!(responses.is_empty() && notifications.is_empty());
}
