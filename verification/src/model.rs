//! What the broker does, as functions of its state: for each handler the
//! state it leaves, the response it gives and the notifications it asks
//! for. The handlers are proved against these.

use crate::dispatch::{route_of, Route};
use crate::endpoint::Endpoint;
use crate::error::{error_reply, BrokerError};
use crate::json::{array_text, json_member, json_string, object_text};
use crate::link_format::{link_format_text, AttributeView, LinkView};
use crate::message::{
    notification_message, plain_reply, terminal_reply, ContentFormat, Method, NotificationView,
    RequestView, ResponseView, Status, OBSERVE_SUBSCRIBED,
};
use crate::resource::{
    collection_resource_type, created_topic, data_resource_type, first_index, topic_resource_type,
    with_endpoint, without_endpoint, without_topic, TopicCollectionView, TopicKey, TopicView,
};
use crate::text::path_components;
use crate::uri::{identifier, is_uri, IDENTIFIER_COUNT};
use vstd::prelude::*;
use vstd::utf8::*;

verus! {

/// What serving one request comes to.
pub struct Outcome {
    /// The collection after the request.
    pub state: TopicCollectionView,
    /// The answer to the requester.
    pub response: ResponseView,
    /// What is to be sent to subscribers, in this order.
    pub notifications: Seq<NotificationView>,
}

/// An outcome without notifications.
pub open spec fn answered(state: TopicCollectionView, response: ResponseView) -> Outcome {
    Outcome { state, response, notifications: Seq::empty() }
}

/// What is asked of a subscription.
#[derive(Clone, Copy, Debug, PartialEq, Eq, Structural)]
pub enum SubscriptionAction {
    Subscribe,
    Unsubscribe,
}

/// The collection with the subscribers of its topic at `at` replaced.
pub open spec fn with_subscribers_at(
    state: TopicCollectionView,
    at: int,
    subscribers: Seq<Endpoint>,
) -> TopicCollectionView {
    state.with_topics(state.topics.update(at, state.topics[at].with_subscribers(subscribers)))
}

/// The response that accepts a subscription: the current payload, marked
/// as the first of an observation.
pub open spec fn subscribed_reply(data: Seq<char>) -> ResponseView {
    ResponseView {
        status: Status::Content,
        payload: encode_utf8(data),
        content_format: Some(ContentFormat::Notification),
        observe: Some(OBSERVE_SUBSCRIBED),
    }
}

/// Subscribing `subscriber` to the data under `data_uri`: refused where no
/// topic is reached or the topic is half created; otherwise the endpoint is
/// among the subscribers afterwards, once.
pub open spec fn subscribe(
    state: TopicCollectionView,
    data_uri: Seq<char>,
    subscriber: Endpoint,
) -> Outcome {
    match first_index(state.topics, TopicKey::DataUri, data_uri) {
        None => answered(state, terminal_reply(Status::NotFound, "Topic not found"@)),
        Some(at) => if state.topics[at].half_created {
            answered(state, terminal_reply(Status::NotFound, "Topic not found"@))
        } else {
            answered(
                with_subscribers_at(
                    state,
                    at,
                    with_endpoint(state.topics[at].data_resource.subscribers, subscriber),
                ),
                subscribed_reply(state.topics[at].data_resource.data),
            )
        },
    }
}

/// Unsubscribing `subscriber` from the data under `data_uri`: refused where
/// no topic is reached; otherwise the endpoint is not among the
/// subscribers afterwards, and the response ends the observation.
pub open spec fn unsubscribe(
    state: TopicCollectionView,
    data_uri: Seq<char>,
    subscriber: Endpoint,
) -> Outcome {
    match first_index(state.topics, TopicKey::DataUri, data_uri) {
        None => answered(state, terminal_reply(Status::NotFound, "Topic not found"@)),
        Some(at) => if state.topics[at].data_resource.subscribers.contains(subscriber) {
            answered(
                with_subscribers_at(
                    state,
                    at,
                    without_endpoint(state.topics[at].data_resource.subscribers, subscriber),
                ),
                terminal_reply(Status::Content, "Unsubscribed successfully"@),
            )
        } else {
            answered(state, terminal_reply(Status::Content, "Subscriber not found"@))
        },
    }
}

/// A subscription or an unsubscription.
pub open spec fn subscription(
    state: TopicCollectionView,
    data_uri: Seq<char>,
    subscriber: Endpoint,
    action: SubscriptionAction,
) -> Outcome {
    match action {
        SubscriptionAction::Subscribe => subscribe(state, data_uri, subscriber),
        SubscriptionAction::Unsubscribe => unsubscribe(state, data_uri, subscriber),
    }
}

/// Reading the data under `data_uri`: the payload published last, or not
/// found where no topic is reached or nothing was published yet.
pub open spec fn read_latest(state: TopicCollectionView, data_uri: Seq<char>) -> ResponseView {
    match first_index(state.topics, TopicKey::DataUri, data_uri) {
        None => plain_reply(Status::NotFound, "Topic not found"@),
        Some(at) => if state.topics[at].half_created {
            plain_reply(Status::NotFound, "Topic data not found"@)
        } else {
            ResponseView {
                status: Status::Content,
                payload: encode_utf8(state.topics[at].data_resource.data),
                content_format: Some(ContentFormat::Json),
                observe: None,
            }
        },
    }
}

/// One notification of `payload` for each subscriber, in their order.
pub open spec fn notifications_for(subscribers: Seq<Endpoint>, payload: Seq<u8>) -> Seq<
    NotificationView,
> {
    Seq::new(
        subscribers.len(),
        |i: int|
            NotificationView { recipient: subscribers[i], message: notification_message(payload) },
    )
}

/// Publishing `payload` under `data_uri`: refused where the payload is not
/// UTF-8 or no topic is reached; otherwise the topic holds the payload and
/// is fully created afterwards, the answer tells whether this was its
/// first publish, and every subscriber is to be notified.
pub open spec fn publish(
    state: TopicCollectionView,
    data_uri: Seq<char>,
    payload: Seq<u8>,
) -> Outcome {
    if !valid_utf8(payload) {
        answered(state, error_reply(BrokerError::BadRequest))
    } else {
        match first_index(state.topics, TopicKey::DataUri, data_uri) {
            None => answered(state, plain_reply(Status::NotFound, ""@)),
            Some(at) => Outcome {
                state: state.with_topics(
                    state.topics.update(at, state.topics[at].published(decode_utf8(payload))),
                ),
                response: if state.topics[at].half_created {
                    plain_reply(Status::Created, "Created"@)
                } else {
                    plain_reply(Status::Changed, "Updated"@)
                },
                notifications: notifications_for(
                    state.topics[at].data_resource.subscribers,
                    payload,
                ),
            },
        }
    }
}

/// What a run of publishes comes to.
pub struct Published {
    /// The collection after the last publish.
    pub state: TopicCollectionView,
    /// The answer to each publish, in their order.
    pub responses: Seq<ResponseView>,
    /// All the notifications that became due, in the order in which they
    /// did.
    pub notifications: Seq<NotificationView>,
}

/// Publishing the given payloads under `data_uri`, one after the other.
pub open spec fn publish_all(
    state: TopicCollectionView,
    data_uri: Seq<char>,
    payloads: Seq<Seq<u8>>,
) -> Published
    decreases payloads.len(),
{
    if payloads.len() == 0 {
        Published { state, responses: Seq::empty(), notifications: Seq::empty() }
    } else {
        let before = publish_all(state, data_uri, payloads.drop_last());
        let outcome = publish(before.state, data_uri, payloads.last());
        Published {
            state: outcome.state,
            responses: before.responses.push(outcome.response),
            notifications: before.notifications + outcome.notifications,
        }
    }
}

/// True when a topic is reached under `data_uri` and `subscriber` is
/// among its subscribers, none of which is there twice.
pub open spec fn subscribed_once(
    state: TopicCollectionView,
    data_uri: Seq<char>,
    subscriber: Endpoint,
) -> bool {
    &&& state.has_topic(TopicKey::DataUri, data_uri)
    &&& state.topic(TopicKey::DataUri, data_uri).data_resource.subscribers.contains(subscriber)
    &&& state.topic(TopicKey::DataUri, data_uri).data_resource.subscribers.no_duplicates()
}

/// The payloads of the notifications addressed to `recipient`, in order.
pub open spec fn payloads_for(notifications: Seq<NotificationView>, recipient: Endpoint) -> Seq<
    Seq<u8>,
>
    decreases notifications.len(),
{
    if notifications.len() == 0 {
        Seq::empty()
    } else if notifications.last().recipient == recipient {
        payloads_for(notifications.drop_last(), recipient).push(
            notifications.last().message.payload,
        )
    } else {
        payloads_for(notifications.drop_last(), recipient)
    }
}

/// True when no topic of the collection is reached under `uri`, neither as
/// a topic nor as data.
pub open spec fn uri_free(state: TopicCollectionView, uri: Seq<char>) -> bool {
    !state.has_topic(TopicKey::Uri, uri) && !state.has_topic(TopicKey::DataUri, uri)
}

/// True when a new topic may take the two identifiers: both are free, and
/// they differ.
pub open spec fn fresh_pair(
    state: TopicCollectionView,
    topic_uri: Seq<char>,
    data_uri: Seq<char>,
) -> bool {
    uri_free(state, topic_uri) && uri_free(state, data_uri) && topic_uri != data_uri
}

/// The body that answers a creation: where the topic and its data are
/// reached, and the name and resource type it was created with.
pub open spec fn creation_body(
    topic_name: Seq<char>,
    resource_type: Seq<char>,
    topic_uri: Seq<char>,
    data_uri: Seq<char>,
) -> Seq<char> {
    object_text(
        seq![
            (json_string("Location-Path"@), json_string("ps/"@ + topic_uri)),
            (json_string("resource-type"@), json_string(resource_type)),
            (json_string("topic-data"@), json_string("ps/data/"@ + data_uri)),
            (json_string("topic-name"@), json_string(topic_name)),
        ],
    )
}

/// Creating a topic under the given identifiers: the collection gains a
/// half-created topic at its end, and the answer tells where it is.
pub open spec fn create(
    state: TopicCollectionView,
    topic_name: Seq<char>,
    resource_type: Seq<char>,
    topic_uri: Seq<char>,
    data_uri: Seq<char>,
) -> Outcome {
    answered(
        state.with_topics(
            state.topics.push(created_topic(topic_name, resource_type, topic_uri, data_uri)),
        ),
        plain_reply(
            Status::Created,
            creation_body(topic_name, resource_type, topic_uri, data_uri),
        ),
    )
}

/// Deleting the topic under `topic_uri`: it is gone afterwards, with its
/// data and its subscribers; the answer is the same where there was none.
pub open spec fn delete(state: TopicCollectionView, topic_uri: Seq<char>) -> Outcome {
    answered(
        state.with_topics(without_topic(state.topics, topic_uri)),
        plain_reply(Status::Deleted, "Topic deleted succesfully"@),
    )
}

/// One topic in the list of all topics: its name, then where it and its
/// data are reached.
pub open spec fn listing_entry(topic: TopicView) -> Seq<char> {
    array_text(
        seq![
            json_string(topic.topic_name),
            array_text(
                seq![
                    json_string("topic:"@ + topic.topic_uri),
                    json_string("data:"@ + topic.topic_data),
                ],
            ),
        ],
    )
}

/// The list of all topics, as a JSON array.
pub open spec fn topic_listing(topics: Seq<TopicView>) -> Seq<char> {
    array_text(Seq::new(topics.len(), |i: int| listing_entry(topics[i])))
}

/// The answer to the request for the list of all topics.
pub open spec fn listing_reply(state: TopicCollectionView) -> ResponseView {
    plain_reply(Status::Content, topic_listing(state.topics))
}

/// A link to `target` that names its resource type.
pub open spec fn resource_link(target: Seq<char>, resource_type: Seq<char>) -> LinkView {
    LinkView { target, attributes: seq![AttributeView { key: "rt"@, value: resource_type }] }
}

/// The link to the broker at `url`.
pub open spec fn broker_link(url: Seq<char>) -> LinkView {
    resource_link(url, "core.ps"@)
}

/// The link to the collection named `name`, which answers in link format.
pub open spec fn collection_link(name: Seq<char>) -> LinkView {
    LinkView {
        target: "/"@ + name,
        attributes: seq![
            AttributeView { key: "rt"@, value: collection_resource_type() },
            AttributeView { key: "ct"@, value: "40"@ },
        ],
    }
}

/// One link for each topic that is a topic configuration, in order.
pub open spec fn configuration_links(topics: Seq<TopicView>) -> Seq<LinkView>
    decreases topics.len(),
{
    if topics.len() == 0 {
        Seq::empty()
    } else if topics.last().resource_type == topic_resource_type() {
        configuration_links(topics.drop_last()).push(
            resource_link("/ps/"@ + topics.last().topic_uri, topic_resource_type()),
        )
    } else {
        configuration_links(topics.drop_last())
    }
}

/// One link for the data resource of each topic, in order.
pub open spec fn data_links(topics: Seq<TopicView>) -> Seq<LinkView>
    decreases topics.len(),
{
    if topics.len() == 0 {
        Seq::empty()
    } else if topics.last().data_resource.resource_type == data_resource_type() {
        data_links(topics.drop_last()).push(
            resource_link("/ps/data/"@ + topics.last().topic_data, data_resource_type()),
        )
    } else {
        data_links(topics.drop_last())
    }
}

/// The answer to a discovery request: the links as a link-format document.
pub open spec fn discovery_reply(links: Seq<LinkView>, line_breaks: bool) -> ResponseView {
    ResponseView {
        status: Status::Content,
        payload: encode_utf8(link_format_text(links, line_breaks)),
        content_format: Some(ContentFormat::LinkFormat),
        observe: None,
    }
}

/// The route of a request.
pub open spec fn request_route(request: RequestView) -> Result<Route, BrokerError> {
    route_of(request.method, path_components(request.path), request.observe)
}

/// The name that the body of a creation request gives the topic.
pub open spec fn requested_name(request: RequestView) -> Option<Seq<char>> {
    json_member(request.payload, "topic-name"@)
}

/// The resource type that the body of a creation request gives the topic.
pub open spec fn requested_type(request: RequestView) -> Option<Seq<char>> {
    json_member(request.payload, "resource-type"@)
}

/// True when serving the request draws identifiers for a new topic: it is
/// routed to creation, and its body gives a name and a resource type.
pub open spec fn draws_identifiers(request: RequestView) -> bool {
    &&& request_route(request) == Ok::<Route, BrokerError>(Route::CreateTopic)
    &&& requested_name(request) is Some
    &&& requested_type(request) is Some
}

/// What serving a request on a given route comes to, where no identifiers
/// are drawn. `components` are the components of the request's path, and
/// `url` is where the broker itself is reached. A request that found no
/// route is answered with the error, and so is a creation whose body does
/// not name the topic and its resource type.
pub open spec fn serve_route(
    state: TopicCollectionView,
    url: Seq<char>,
    route: Result<Route, BrokerError>,
    components: Seq<Seq<char>>,
    request: RequestView,
) -> Outcome {
    match route {
        Ok(Route::TopicListing) => answered(state, listing_reply(state)),
        Ok(Route::BrokerDiscovery) => answered(
            state,
            discovery_reply(seq![broker_link(url)], false),
        ),
        Ok(Route::CollectionDiscovery) => answered(
            state,
            discovery_reply(seq![collection_link(state.name)], true),
        ),
        Ok(Route::ConfigurationDiscovery) => answered(
            state,
            discovery_reply(configuration_links(state.topics), true),
        ),
        Ok(Route::DataDiscovery) => answered(
            state,
            discovery_reply(data_links(state.topics), true),
        ),
        Ok(Route::Subscribe) => subscribe(state, components[2], request.source),
        Ok(Route::Unsubscribe) => unsubscribe(state, components[2], request.source),
        Ok(Route::ReadLatest) => answered(state, read_latest(state, components[2])),
        Ok(Route::CreateTopic) => answered(state, error_reply(BrokerError::BadRequest)),
        Ok(Route::Publish) => publish(state, components[2], request.payload),
        Ok(Route::DeleteTopic) => delete(state, components.last()),
        Err(error) => answered(state, error_reply(error)),
    }
}

/// What serving a request that draws no identifiers comes to.
pub open spec fn serve(state: TopicCollectionView, url: Seq<char>, request: RequestView) -> Outcome
    recommends
        !draws_identifiers(request),
{
    serve_route(state, url, request_route(request), path_components(request.path), request)
}

/// The same request under another method.
pub open spec fn with_method(request: RequestView, method: Method) -> RequestView {
    RequestView { method, ..request }
}

/// True when the collection has used the identifiers up: no two different
/// identifiers are free.
pub open spec fn identifiers_scarce(state: TopicCollectionView) -> bool {
    forall|a: nat, b: nat|
        a < IDENTIFIER_COUNT && b < IDENTIFIER_COUNT && #[trigger] identifier(a)
            != #[trigger] identifier(b) ==> !(uri_free(state, identifier(a)) && uri_free(
            state,
            identifier(b),
        ))
}

/// What a creation comes to, whatever identifiers were drawn: either a
/// topic was created under two identifiers that were free, or the
/// identifiers are used up and nothing changed.
pub open spec fn created_or_refused(
    before: TopicCollectionView,
    topic_name: Seq<char>,
    resource_type: Seq<char>,
    outcome: Outcome,
) -> bool {
    ||| outcome == answered(before, error_reply(BrokerError::Conflict)) && identifiers_scarce(
        before,
    )
    ||| exists|topic_uri: Seq<char>, data_uri: Seq<char>|
        {
            &&& is_uri(topic_uri)
            &&& is_uri(data_uri)
            &&& fresh_pair(before, topic_uri, data_uri)
            &&& outcome == #[trigger] create(before, topic_name, resource_type, topic_uri, data_uri)
        }
}

} // verus!
