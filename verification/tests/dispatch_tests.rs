use coap_pubsub::dispatch::{classify, Route};
use coap_pubsub::error::BrokerError;
use coap_pubsub::message::{ContentFormat, Method, Observe, Response, Status};
use coap_pubsub::text::split_path;

fn route(method: Method, path: &str, observe: Observe) -> Result<Route, BrokerError> {
    classify(method, &split_path(path), observe)
}

#[test]
fn get_routes_follow_the_table() {
    assert_eq!(route(Method::Get, "discovery", Observe::Absent), Ok(Route::TopicListing));
    assert_eq!(route(Method::Get, ".well-known/core?rt=core.ps", Observe::Absent), Ok(Route::BrokerDiscovery));
    assert_eq!(route(Method::Get, ".well-known/core?rt=core.ps.coll", Observe::Absent), Ok(Route::CollectionDiscovery));
    assert_eq!(route(Method::Get, ".well-known/core?rt=core.ps.conf", Observe::Absent), Ok(Route::ConfigurationDiscovery));
    assert_eq!(route(Method::Get, ".well-known/core?rt=core.ps.data", Observe::Absent), Ok(Route::DataDiscovery));
    assert_eq!(route(Method::Get, "ps/data/abc123", Observe::Value(0)), Ok(Route::Subscribe));
    assert_eq!(route(Method::Get, "ps/data/abc123", Observe::Value(1)), Ok(Route::Unsubscribe));
    assert_eq!(route(Method::Get, "ps/data/abc123", Observe::Absent), Ok(Route::ReadLatest));
    assert_eq!(route(Method::Get, "/ps//data/abc123/", Observe::Absent), Ok(Route::ReadLatest));
}

#[test]
fn unknown_observe_values_are_not_found() {
    assert_eq!(route(Method::Get, "ps/data/abc123", Observe::Value(2)), Err(BrokerError::NotFound));
    assert_eq!(route(Method::Get, "ps/data/abc123", Observe::Value(10001)), Err(BrokerError::NotFound));
    assert_eq!(route(Method::Get, "ps/data/abc123", Observe::Value(u32::MAX)), Err(BrokerError::NotFound));
    assert_eq!(route(Method::Get, "ps/data/abc123", Observe::Malformed), Err(BrokerError::NotFound));
    assert_eq!(route(Method::Get, "discovery", Observe::Value(7)), Ok(Route::TopicListing));
}

#[test]
fn unmatched_get_paths_are_invalid() {
    assert_eq!(route(Method::Get, "", Observe::Absent), Err(BrokerError::NotFound));
    assert_eq!(route(Method::Get, "ps", Observe::Absent), Err(BrokerError::NotFound));
    assert_eq!(route(Method::Get, "ps/data", Observe::Absent), Err(BrokerError::NotFound));
    assert_eq!(route(Method::Get, "ps/data/abc123/more", Observe::Absent), Err(BrokerError::NotFound));
    assert_eq!(route(Method::Get, "ps/other/abc123", Observe::Value(0)), Err(BrokerError::NotFound));
    assert_eq!(route(Method::Get, "discovery/more", Observe::Absent), Err(BrokerError::NotFound));
    assert_eq!(route(Method::Get, ".well-known/core", Observe::Absent), Err(BrokerError::NotFound));
    assert_eq!(route(Method::Get, ".well-known/core?rt=core.ps.other", Observe::Absent), Err(BrokerError::NotFound));
    assert_eq!(route(Method::Get, "Discovery", Observe::Absent), Err(BrokerError::NotFound));
}

#[test]
fn post_creates_on_one_component() {
    assert_eq!(route(Method::Post, "ps", Observe::Absent), Ok(Route::CreateTopic));
    assert_eq!(route(Method::Post, "anything", Observe::Value(0)), Ok(Route::CreateTopic));
    assert_eq!(route(Method::Post, "", Observe::Absent), Err(BrokerError::NotFound));
    assert_eq!(route(Method::Post, "ps/data", Observe::Absent), Err(BrokerError::NotFound));
}

#[test]
fn put_publishes_on_data_paths() {
    assert_eq!(route(Method::Put, "ps/data/abc123", Observe::Absent), Ok(Route::Publish));
    assert_eq!(route(Method::Put, "ps/data/abc123", Observe::Value(5)), Ok(Route::Publish));
    assert_eq!(route(Method::Put, "", Observe::Absent), Err(BrokerError::BadRequest));
    assert_eq!(route(Method::Put, "ps", Observe::Absent), Err(BrokerError::BadRequest));
    assert_eq!(route(Method::Put, "ps/data", Observe::Absent), Err(BrokerError::BadRequest));
    assert_eq!(route(Method::Put, "ps/other/abc123", Observe::Absent), Err(BrokerError::NotFound));
    assert_eq!(route(Method::Put, "px/data/abc123", Observe::Absent), Err(BrokerError::NotFound));
    assert_eq!(route(Method::Put, "ps/data/abc123/more", Observe::Absent), Err(BrokerError::NotFound));
}

#[test]
fn delete_takes_the_topic_identifier() {
    assert_eq!(route(Method::Delete, "abc123", Observe::Absent), Ok(Route::DeleteTopic));
    assert_eq!(route(Method::Delete, "ps/abc123", Observe::Absent), Ok(Route::DeleteTopic));
    assert_eq!(route(Method::Delete, "", Observe::Absent), Err(BrokerError::NotFound));
    assert_eq!(route(Method::Delete, "px/abc123", Observe::Absent), Err(BrokerError::NotFound));
    assert_eq!(route(Method::Delete, "ps/data/abc123", Observe::Absent), Err(BrokerError::NotFound));
}

#[test]
fn other_methods_are_invalid() {
    assert_eq!(route(Method::Other, "discovery", Observe::Absent), Err(BrokerError::NotFound));
    assert_eq!(route(Method::Other, "ps/data/abc123", Observe::Value(0)), Err(BrokerError::NotFound));
}

#[test]
fn errors_map_to_response_codes() {
    assert_eq!(BrokerError::NotFound.status(), Status::NotFound);
    assert_eq!(BrokerError::BadRequest.status(), Status::BadRequest);
    assert_eq!(BrokerError::Conflict.status(), Status::ServiceUnavailable);
    assert_eq!(BrokerError::NotFound.message(), "Not found");
    assert_eq!(BrokerError::BadRequest.message(), "Bad request");
    assert_eq!(BrokerError::Conflict.message(), "No free identifier");
    let response = BrokerError::BadRequest.response();
    assert_eq!(response.status, Status::BadRequest);
    assert_eq!(response.payload, b"Bad request".to_vec());
    assert_eq!(response.content_format, None);
    assert_eq!(response.observe, None);
    assert_eq!(Status::NotFound.code(), (4, 4));
    assert_eq!(Status::BadRequest.code(), (4, 0));
    assert_eq!(Status::ServiceUnavailable.code(), (5, 3));
    assert_eq!(Status::Created.code(), (2, 1));
    assert_eq!(Status::Deleted.code(), (2, 2));
    assert_eq!(Status::Changed.code(), (2, 4));
    assert_eq!(Status::Content.code(), (2, 5));
}

#[test]
fn content_formats_have_registered_numbers() {
    assert_eq!(ContentFormat::LinkFormat.number(), 40);
    assert_eq!(ContentFormat::Json.number(), 50);
    assert_eq!(ContentFormat::Notification.number(), 110);
}

#[test]
fn plain_and_terminal_responses() {
    let plain = Response::plain(Status::NotFound, "Topic not found");
    assert_eq!(plain.status, Status::NotFound);
    assert_eq!(plain.payload, b"Topic not found".to_vec());
    assert_eq!(plain.content_format, None);
    assert_eq!(plain.observe, None);
    let terminal = Response::terminal(Status::Content, "Unsubscribed successfully");
    assert_eq!(terminal.status, Status::Content);
    assert_eq!(terminal.payload, b"Unsubscribed successfully".to_vec());
    assert_eq!(terminal.content_format, None);
    assert_eq!(terminal.observe, Some(1));
}
