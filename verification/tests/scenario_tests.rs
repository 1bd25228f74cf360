use coap_pubsub::broker::{Broker, Reply};
use coap_pubsub::endpoint::Endpoint;
use coap_pubsub::message::{ContentFormat, Method, Observe, Request, Response, Status};

const BROKER_URL: &str = "coap://127.0.0.1:5683";

fn client() -> Endpoint {
    Endpoint::V4 { octets: 0x7f00_0001, port: 40000 }
}

fn other_client() -> Endpoint {
    Endpoint::V6 { segments: 1, port: 40001, flow_info: 0, scope_id: 0 }
}

fn request(method: Method, path: &str, payload: &[u8], observe: Observe, source: Endpoint) -> Request {
    Request { method, path: path.to_string(), payload: payload.to_vec(), source, observe }
}

fn serve(broker: &mut Broker, method: Method, path: &str, payload: &[u8], observe: Observe) -> Reply {
    broker.handle_request(&request(method, path, payload, observe, client()))
}

fn text(response: &Response) -> String {
    String::from_utf8(response.payload.clone()).unwrap()
}

/// Creates the topic `weather` and hands back its topic and data identifiers.
fn create_weather(broker: &mut Broker) -> (String, String) {
    let body = br#"{"topic-name":"weather","resource-type":"core.ps.conf"}"#;
    let reply = serve(broker, Method::Post, "ps", body, Observe::Absent);
    assert_eq!(reply.response.status, Status::Created);
    let created: serde_json::Value = serde_json::from_slice(&reply.response.payload).unwrap();
    let location = created.get("Location-Path").unwrap().as_str().unwrap().to_string();
    let data = created.get("topic-data").unwrap().as_str().unwrap().to_string();
    assert!(location.starts_with("ps/"));
    assert!(data.starts_with("ps/data/"));
    (location["ps/".len()..].to_string(), data["ps/data/".len()..].to_string())
}

fn publish(broker: &mut Broker, data_uri: &str, payload: &[u8]) -> Reply {
    serve(broker, Method::Put, &format!("ps/data/{}", data_uri), payload, Observe::Absent)
}

#[test]
fn empty_discovery_lists_nothing() {
    let mut broker = Broker::new(BROKER_URL.to_string());
    let reply = serve(&mut broker, Method::Get, "discovery", b"", Observe::Absent);
    assert_eq!(reply.response.status, Status::Content);
    assert_eq!(text(&reply.response), "[]");
    assert!(reply.notifications.is_empty());
}

#[test]
fn create_then_read() {
    let mut broker = Broker::new(BROKER_URL.to_string());
    let body = br#"{"topic-name":"weather","resource-type":"core.ps.conf"}"#;
    let reply = serve(&mut broker, Method::Post, "ps", body, Observe::Absent);
    assert_eq!(reply.response.status, Status::Created);
    assert_eq!(reply.response.status.code(), (2, 1));
    let created = text(&reply.response);
    assert!(created.contains(r#""topic-name":"weather""#));
    assert!(created.contains(r#""topic-data":"ps/data/"#));
    let parsed: serde_json::Value = serde_json::from_str(&created).unwrap();
    let data = parsed.get("topic-data").unwrap().as_str().unwrap();
    let data_uri = &data["ps/data/".len()..];
    assert_eq!(data_uri.len(), 6);
    assert_eq!(parsed.get("resource-type").unwrap().as_str(), Some("core.ps.conf"));
    let path = format!("ps/data/{}", data_uri);

    let unread = serve(&mut broker, Method::Get, &path, b"", Observe::Absent);
    assert_eq!(unread.response.status, Status::NotFound);
    assert_eq!(unread.response.status.code(), (4, 4));
    assert_eq!(text(&unread.response), "Topic data not found");

    let first = serve(&mut broker, Method::Put, &path, br#"{"temperature":24}"#, Observe::Absent);
    assert_eq!(first.response.status, Status::Created);
    assert_eq!(text(&first.response), "Created");
    assert!(first.notifications.is_empty());

    let read = serve(&mut broker, Method::Get, &path, b"", Observe::Absent);
    assert_eq!(read.response.status, Status::Content);
    assert_eq!(read.response.status.code(), (2, 5));
    assert_eq!(text(&read.response), r#"{"temperature":24}"#);
    assert_eq!(read.response.content_format, Some(ContentFormat::Json));
    assert_eq!(read.response.observe, None);
}

#[test]
fn subscriber_receives_update() {
    let mut broker = Broker::new(BROKER_URL.to_string());
    let (_, data_uri) = create_weather(&mut broker);
    publish(&mut broker, &data_uri, br#"{"temperature":24}"#);
    let path = format!("ps/data/{}", data_uri);

    let subscribed = serve(&mut broker, Method::Get, &path, b"", Observe::Value(0));
    assert_eq!(subscribed.response.status, Status::Content);
    assert_eq!(text(&subscribed.response), r#"{"temperature":24}"#);
    assert_eq!(subscribed.response.observe, Some(10001));
    assert_eq!(subscribed.response.content_format, Some(ContentFormat::Notification));
    assert_eq!(ContentFormat::Notification.number(), 110);

    let changed = publish(&mut broker, &data_uri, br#"{"temperature":25}"#);
    assert_eq!(changed.response.status, Status::Changed);
    assert_eq!(changed.response.status.code(), (2, 4));
    assert_eq!(text(&changed.response), "Updated");
    assert_eq!(changed.notifications.len(), 1);
    let notification = &changed.notifications[0];
    assert_eq!(notification.recipient, client());
    assert_eq!(notification.message.status, Status::Changed);
    assert_eq!(notification.message.observe, Some(10002));
    assert_eq!(notification.message.content_format, Some(ContentFormat::Notification));
    assert_eq!(notification.message.payload, br#"{"temperature":25}"#.to_vec());
}

#[test]
fn unsubscribe_is_terminal() {
    let mut broker = Broker::new(BROKER_URL.to_string());
    let (_, data_uri) = create_weather(&mut broker);
    publish(&mut broker, &data_uri, br#"{"temperature":24}"#);
    let path = format!("ps/data/{}", data_uri);
    serve(&mut broker, Method::Get, &path, b"", Observe::Value(0));
    publish(&mut broker, &data_uri, br#"{"temperature":25}"#);

    let unsubscribed = serve(&mut broker, Method::Get, &path, b"", Observe::Value(1));
    assert_eq!(unsubscribed.response.status, Status::Content);
    assert_eq!(unsubscribed.response.observe, Some(1));
    assert_eq!(text(&unsubscribed.response), "Unsubscribed successfully");

    let changed = publish(&mut broker, &data_uri, br#"{"temperature":26}"#);
    assert_eq!(changed.response.status, Status::Changed);
    assert!(changed.notifications.is_empty());

    let again = serve(&mut broker, Method::Get, &path, b"", Observe::Value(1));
    assert_eq!(again.response.status, Status::Content);
    assert_eq!(again.response.observe, Some(1));
    assert_eq!(text(&again.response), "Subscriber not found");
}

#[test]
fn delete_removes_topic_and_data() {
    let mut broker = Broker::new(BROKER_URL.to_string());
    let (topic_uri, data_uri) = create_weather(&mut broker);
    publish(&mut broker, &data_uri, br#"{"temperature":24}"#);

    let deleted = serve(&mut broker, Method::Delete, &topic_uri, b"", Observe::Absent);
    assert_eq!(deleted.response.status, Status::Deleted);
    assert_eq!(deleted.response.status.code(), (2, 2));
    assert_eq!(text(&deleted.response), "Topic deleted succesfully");

    let listing = serve(&mut broker, Method::Get, "discovery", b"", Observe::Absent);
    assert_eq!(text(&listing.response), "[]");
    let read = serve(&mut broker, Method::Get, &format!("ps/data/{}", data_uri), b"", Observe::Absent);
    assert_eq!(read.response.status, Status::NotFound);
    assert_eq!(text(&read.response), "Topic not found");

    let repeated = serve(&mut broker, Method::Delete, &topic_uri, b"", Observe::Absent);
    assert_eq!(repeated.response.status, Status::Deleted);
}

#[test]
fn delete_by_location_path() {
    let mut broker = Broker::new(BROKER_URL.to_string());
    let (topic_uri, _) = create_weather(&mut broker);
    let deleted = serve(&mut broker, Method::Delete, &format!("ps/{}", topic_uri), b"", Observe::Absent);
    assert_eq!(deleted.response.status, Status::Deleted);
    assert!(broker.get_collection().get_topics().is_empty());
}

#[test]
fn discovery_queries() {
    let mut broker = Broker::new(BROKER_URL.to_string());
    let (topic_uri, data_uri) = create_weather(&mut broker);
    publish(&mut broker, &data_uri, br#"{"temperature":24}"#);

    let conf = serve(&mut broker, Method::Get, ".well-known/core?rt=core.ps.conf", b"", Observe::Absent);
    assert_eq!(conf.response.status, Status::Content);
    assert_eq!(conf.response.content_format, Some(ContentFormat::LinkFormat));
    assert_eq!(ContentFormat::LinkFormat.number(), 40);
    assert_eq!(text(&conf.response), format!("</ps/{}>;rt=\"core.ps.conf\"", topic_uri));

    let data = serve(&mut broker, Method::Get, ".well-known/core?rt=core.ps.data", b"", Observe::Absent);
    assert_eq!(data.response.status, Status::Content);
    assert_eq!(data.response.content_format, Some(ContentFormat::LinkFormat));
    assert_eq!(text(&data.response), format!("</ps/data/{}>;rt=\"core.ps.data\"", data_uri));

    let coll = serve(&mut broker, Method::Get, ".well-known/core?rt=core.ps.coll", b"", Observe::Absent);
    assert_eq!(coll.response.status, Status::Content);
    assert_eq!(coll.response.content_format, Some(ContentFormat::LinkFormat));
    assert_eq!(text(&coll.response), "</ps>;rt=\"core.ps.coll\";ct=40");

    let own = serve(&mut broker, Method::Get, ".well-known/core?rt=core.ps", b"", Observe::Absent);
    assert_eq!(own.response.status, Status::Content);
    assert_eq!(own.response.content_format, Some(ContentFormat::LinkFormat));
    assert_eq!(text(&own.response), "<coap://127.0.0.1:5683>;rt=\"core.ps\"");
}

#[test]
fn test_full_coap_pubsub_workflow() {
    let mut broker = Broker::new(BROKER_URL.to_string());

    let output = text(&serve(&mut broker, Method::Get, "discovery", b"", Observe::Absent).response);
    assert!(output.contains("[]"));

    let conf = serve(&mut broker, Method::Get, ".well-known/core?rt=core.ps.conf", b"", Observe::Absent);
    assert_eq!(conf.response.status, Status::Content);
    assert_eq!(text(&conf.response), "");
    let data = serve(&mut broker, Method::Get, ".well-known/core?rt=core.ps.data", b"", Observe::Absent);
    assert_eq!(data.response.status, Status::Content);
    assert_eq!(text(&data.response), "");
    let output = text(&serve(&mut broker, Method::Get, ".well-known/core?rt=core.ps.coll", b"", Observe::Absent).response);
    assert!(output.contains("core.ps.coll"));

    let body = serde_json::Value::Object(
        [("topic-name", "weather"), ("resource-type", "core.ps.conf")]
            .iter()
            .map(|(key, value)| (key.to_string(), serde_json::Value::String(value.to_string())))
            .collect(),
    )
    .to_string();
    let creation = serve(&mut broker, Method::Post, "ps", body.as_bytes(), Observe::Absent);
    assert_eq!(creation.response.status.code(), (2, 1));
    let created: serde_json::Value = serde_json::from_slice(&creation.response.payload).unwrap();
    let data_uri = created["topic-data"].as_str().and_then(|s| s.split('/').last()).map(String::from).unwrap();
    let topic_uri = created["Location-Path"].as_str().and_then(|s| s.split('/').last()).map(String::from).unwrap();

    let output = text(&serve(&mut broker, Method::Get, "discovery", b"", Observe::Absent).response);
    assert!(output.contains("weather"));

    let output = text(&publish(&mut broker, &data_uri, b"{\"temperature\":24}").response);
    assert!(output.contains("Created"));

    let path = format!("ps/data/{}", data_uri);
    let output = text(&serve(&mut broker, Method::Get, &path, b"", Observe::Value(0)).response);
    assert!(output.contains("\"temperature\":24"));

    let output = text(&serve(&mut broker, Method::Get, &path, b"", Observe::Value(1)).response);
    assert!(output.contains("Unsubscribe"));

    let output = text(&publish(&mut broker, &data_uri, b"{\"temperature\":25}").response);
    assert!(output.contains("Updated"));

    let output = text(&serve(&mut broker, Method::Get, &path, b"", Observe::Absent).response);
    assert!(output.contains("25"));

    serve(&mut broker, Method::Delete, &topic_uri, b"", Observe::Absent);

    let output = text(&serve(&mut broker, Method::Get, "discovery", b"", Observe::Absent).response);
    assert!(output.contains("[]"));
}

#[test]
fn notifications_follow_subscription_order() {
    let mut broker = Broker::new(BROKER_URL.to_string());
    let (_, data_uri) = create_weather(&mut broker);
    publish(&mut broker, &data_uri, b"0");
    let path = format!("ps/data/{}", data_uri);
    broker.handle_request(&request(Method::Get, &path, b"", Observe::Value(0), other_client()));
    broker.handle_request(&request(Method::Get, &path, b"", Observe::Value(0), client()));
    broker.handle_request(&request(Method::Get, &path, b"", Observe::Value(0), other_client()));

    let mut received: Vec<Vec<u8>> = Vec::new();
    for payload in [b"1".to_vec(), b"22".to_vec(), b"333".to_vec()] {
        let reply = publish(&mut broker, &data_uri, &payload);
        assert_eq!(reply.notifications.len(), 2);
        assert_eq!(reply.notifications[0].recipient, other_client());
        assert_eq!(reply.notifications[1].recipient, client());
        for notification in reply.notifications {
            if notification.recipient == client() {
                received.push(notification.message.payload);
            }
        }
    }
    assert_eq!(received, vec![b"1".to_vec(), b"22".to_vec(), b"333".to_vec()]);
}
