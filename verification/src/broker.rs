//! The broker: one topic collection and the handlers that serve requests
//! on it.

use crate::dispatch::{classify, Route};
use crate::endpoint::Endpoint;
use crate::error::{error_reply, BrokerError};
use crate::json::{json_array, json_object, quoted, string_member};
use crate::laws::law_notifications_in_order;
use crate::link_format::{
    is_key, keys_valid, link_views, write_link_format, Attribute, Link, LinkView,
};
use crate::message::{
    notification_views, payload_views, response_views, ContentFormat, Method, Notification,
    NotificationView, Request, Response, ResponseView, Status, OBSERVE_NOTIFICATION,
    OBSERVE_SUBSCRIBED,
};
use crate::model::{
    answered, broker_link, collection_link, configuration_links, create, created_or_refused,
    creation_body, data_links, delete, discovery_reply, draws_identifiers, fresh_pair,
    identifiers_scarce, listing_entry, listing_reply, notifications_for, payloads_for, publish,
    publish_all, read_latest, requested_name, requested_type, resource_link, serve, serve_route,
    subscribed_once, subscription, uri_free, with_method, Outcome, Published, SubscriptionAction,
};
use crate::resource::{
    topic_views, Topic, TopicCollection, TopicCollectionView, TopicKey, TopicView,
};
use crate::text::{bytes_of, decoded, joined, same_text, split_path};
use crate::uri::{generate_uri, identifier, identifier_at, is_uri, IDENTIFIER_COUNT};
use vstd::prelude::*;
use vstd::string::*;
use vstd::utf8::*;

verus! {

/// The name of the broker's topic collection.
pub open spec fn collection_name() -> Seq<char> {
    "ps"@
}

/// The model of a broker.
pub struct BrokerView {
    /// Where the broker itself is reached.
    pub url: Seq<char>,
    pub collection: TopicCollectionView,
}

/// A publish-subscribe broker: the topic collection and the address under
/// which the broker announces itself.
pub struct Broker {
    url: String,
    collection: TopicCollection,
}

impl View for Broker {
    type V = BrokerView;

    closed spec fn view(&self) -> BrokerView {
        BrokerView { url: self.url@, collection: self.collection@ }
    }
}

/// The model of a reply.
pub struct ReplyView {
    pub response: ResponseView,
    pub notifications: Seq<NotificationView>,
}

/// What the broker hands back for one request: the answer to the
/// requester, and what is to be sent to subscribers.
#[derive(Debug)]
pub struct Reply {
    pub response: Response,
    pub notifications: Vec<Notification>,
}

impl View for Reply {
    type V = ReplyView;

    open spec fn view(&self) -> ReplyView {
        ReplyView {
            response: self.response@,
            notifications: notification_views(self.notifications@),
        }
    }
}

impl Broker {
    /// A broker that announces itself under `url`, with an empty collection
    /// named `ps`.
    pub fn new(url: String) -> (broker: Broker)
        ensures
            broker@.url == url@,
            broker@.collection == (TopicCollectionView {
                name: collection_name(),
                resource_type: crate::resource::collection_resource_type(),
                topics: Seq::empty(),
                data: Seq::empty(),
            }),
            broker@.collection.well_formed(),
    {
        Broker { url, collection: TopicCollection::new(String::from_str("ps")) }
    }

    /// The topic collection.
    pub fn get_collection(&self) -> (collection: &TopicCollection)
        ensures
            collection@ == self@.collection,
    {
        &self.collection
    }

    /// Subscribes `subscriber` to the data under `topic_data_uri`, or
    /// unsubscribes it.
    pub fn handle_subscription(
        &mut self,
        topic_data_uri: &str,
        subscriber: Endpoint,
        action: SubscriptionAction,
    ) -> (response: Response)
        ensures
            answered(final(self)@.collection, response@) == subscription(
                old(self)@.collection,
                topic_data_uri@,
                subscriber,
                action,
            ),
            final(self)@.url == old(self)@.url,
            old(self)@.collection.well_formed() ==> final(self)@.collection.well_formed(),
    {
        let ghost before = self.collection@;
        let ghost found = crate::resource::first_index(
            before.topics,
            TopicKey::DataUri,
            topic_data_uri@,
        );
        proof {
            crate::resource::lemma_first_index(before.topics, TopicKey::DataUri, topic_data_uri@);
        }
        let response = match self.collection.find_topic_by_data_uri_mut(topic_data_uri) {
            None => Response::terminal(Status::NotFound, "Topic not found"),
            Some(topic) => {
                match action {
                    SubscriptionAction::Subscribe => {
                        if topic.half_created {
                            Response::terminal(Status::NotFound, "Topic not found")
                        } else {
                            topic.data_resource.add_subscriber(subscriber);
                            Response {
                                status: Status::Content,
                                payload: bytes_of(topic.data_resource.get_data().as_str()),
                                content_format: Some(ContentFormat::Notification),
                                observe: Some(OBSERVE_SUBSCRIBED),
                            }
                        }
                    },
                    SubscriptionAction::Unsubscribe => {
                        if topic.data_resource.has_subscriber(subscriber) {
                            topic.data_resource.remove_subscriber(subscriber);
                            Response::terminal(Status::Content, "Unsubscribed successfully")
                        } else {
                            Response::terminal(Status::Content, "Subscriber not found")
                        }
                    },
                }
            },
        };
        proof {
            let after = self.collection@;
            let expected = subscription(before, topic_data_uri@, subscriber, action);
            if found is Some {
                let at = found.unwrap();
                assert(after.topics =~= expected.state.topics);
                if before.well_formed() {
                    lemma_update_keeps_well_formed(before, at, after.topics[at]);
                }
            }
        }
        response
    }

    /// Reads the payload published last under `topic_data_uri`.
    pub fn handle_get_latest_data(&self, topic_data_uri: &str) -> (response: Response)
        ensures
            response@ == read_latest(self@.collection, topic_data_uri@),
    {
        match self.collection.find_topic_by_data_uri(topic_data_uri) {
            None => Response::plain(Status::NotFound, "Topic not found"),
            Some(topic) => {
                if topic.half_created {
                    Response::plain(Status::NotFound, "Topic data not found")
                } else {
                    Response {
                        status: Status::Content,
                        payload: bytes_of(topic.data_resource.get_data().as_str()),
                        content_format: Some(ContentFormat::Json),
                        observe: None,
                    }
                }
            },
        }
    }

    /// Publishes `payload` under `topic_data_uri` and lists the
    /// notifications that are due to the subscribers.
    pub fn update_topic_data(&mut self, topic_data_uri: &str, payload: &Vec<u8>) -> (reply: Reply)
        ensures
            outcome_of(final(self)@, reply@) == publish(
                old(self)@.collection,
                topic_data_uri@,
                payload@,
            ),
            final(self)@.url == old(self)@.url,
            old(self)@.collection.well_formed() ==> final(self)@.collection.well_formed(),
    {
        let ghost before = self.collection@;
        let ghost found = crate::resource::first_index(
            before.topics,
            TopicKey::DataUri,
            topic_data_uri@,
        );
        proof {
            crate::resource::lemma_first_index(before.topics, TopicKey::DataUri, topic_data_uri@);
        }
        let text = match decoded(payload.as_slice()) {
            Some(text) => text,
            None => {
                let reply = Reply {
                    response: BrokerError::BadRequest.response(),
                    notifications: Vec::new(),
                };
                proof {
                    assert(reply@.notifications =~= Seq::empty());
                }
                return reply;
            },
        };
        proof {
            encode_utf8_decode_utf8(text@);
        }
        let reply = match self.collection.find_topic_by_data_uri_mut(topic_data_uri) {
            None => Reply {
                response: Response::plain(Status::NotFound, ""),
                notifications: Vec::new(),
            },
            Some(topic) => {
                let first = topic.half_created;
                topic.data_resource.set_data(text.to_owned());
                topic.half_created = false;
                let notifications = notify_all(topic.data_resource.get_subscribers(), payload);
                let response = if first {
                    Response::plain(Status::Created, "Created")
                } else {
                    Response::plain(Status::Changed, "Updated")
                };
                Reply { response, notifications }
            },
        };
        proof {
            let after = self.collection@;
            let expected = publish(before, topic_data_uri@, payload@);
            if found is Some {
                let at = found.unwrap();
                assert(after.topics =~= expected.state.topics);
                if before.well_formed() {
                    lemma_update_keeps_well_formed(before, at, after.topics[at]);
                }
            } else {
                assert(reply@.notifications =~= Seq::empty());
            }
        }
        reply
    }

    /// True when a topic of the collection is reached under `uri`, as a
    /// topic or as data.
    fn uri_taken(&self, uri: &str) -> (taken: bool)
        ensures
            taken == !uri_free(self@.collection, uri@),
    {
        self.collection.find_topic_by_uri(uri).is_some() || self.collection.find_topic_by_data_uri(
            uri,
        ).is_some()
    }

    /// Creates a topic under the given identifiers, unless one of them is
    /// taken or the two are the same.
    pub fn create_topic_under(
        &mut self,
        topic_name: String,
        resource_type: String,
        topic_uri: String,
        data_uri: String,
    ) -> (created: Result<Response, BrokerError>)
        ensures
            match created {
                Ok(response) => {
                    &&& fresh_pair(old(self)@.collection, topic_uri@, data_uri@)
                    &&& answered(final(self)@.collection, response@) == create(
                        old(self)@.collection,
                        topic_name@,
                        resource_type@,
                        topic_uri@,
                        data_uri@,
                    )
                },
                Err(error) => {
                    &&& error == BrokerError::Conflict
                    &&& !fresh_pair(old(self)@.collection, topic_uri@, data_uri@)
                    &&& final(self)@ == old(self)@
                },
            },
            final(self)@.url == old(self)@.url,
            old(self)@.collection.well_formed() ==> final(self)@.collection.well_formed(),
    {
        if self.uri_taken(topic_uri.as_str()) || self.uri_taken(data_uri.as_str()) || same_text(
            topic_uri.as_str(),
            data_uri.as_str(),
        ) {
            return Err(BrokerError::Conflict);
        }
        let body = creation_text(
            topic_name.as_str(),
            resource_type.as_str(),
            topic_uri.as_str(),
            data_uri.as_str(),
        );
        let topic = Topic::with_uris(topic_name, resource_type, topic_uri, data_uri);
        match self.collection.add_topic(topic) {
            Ok(_) => Ok(Response::plain(Status::Created, body.as_str())),
            Err(error) => Err(error),
        }
    }

    /// Two different identifiers that are free, where there are any: the
    /// first two in the order of all identifiers.
    fn first_free_pair(&self) -> (pair: Option<(String, String)>)
        ensures
            match pair {
                Some((topic_uri, data_uri)) => {
                    &&& is_uri(topic_uri@)
                    &&& is_uri(data_uri@)
                    &&& fresh_pair(self@.collection, topic_uri@, data_uri@)
                },
                None => identifiers_scarce(self@.collection),
            },
    {
        let mut first: Option<String> = None;
        let mut rank: u32 = 0;
        while rank < IDENTIFIER_COUNT
            invariant
                rank <= IDENTIFIER_COUNT,
                match first {
                    Some(found) => {
                        &&& is_uri(found@)
                        &&& uri_free(self@.collection, found@)
                        &&& forall|k: nat|
                            k < rank ==> !uri_free(self@.collection, #[trigger] identifier(k))
                                || identifier(k) == found@
                    },
                    None => forall|k: nat|
                        k < rank ==> !uri_free(self@.collection, #[trigger] identifier(k)),
                },
            decreases IDENTIFIER_COUNT - rank,
        {
            let candidate = identifier_at(rank);
            if !self.uri_taken(candidate.as_str()) {
                match first {
                    Some(found) => {
                        if !same_text(found.as_str(), candidate.as_str()) {
                            return Some((found, candidate));
                        }
                        first = Some(found);
                    },
                    None => {
                        first = Some(candidate);
                    },
                }
            }
            rank = rank + 1;
        }
        None
    }

    /// Creates a topic under two identifiers drawn at random, drawing again
    /// while one of them is taken, up to `MAX_DRAWS` times; after that it
    /// takes the first two identifiers that are free.
    pub fn create_topic(&mut self, topic_name: &String, resource_type: &String) -> (response:
        Response)
        ensures
            created_or_refused(
                old(self)@.collection,
                topic_name@,
                resource_type@,
                answered(final(self)@.collection, response@),
            ),
            final(self)@.url == old(self)@.url,
            old(self)@.collection.well_formed() ==> final(self)@.collection.well_formed(),
    {
        let mut draws: usize = 0;
        while draws < MAX_DRAWS
            invariant
                draws <= MAX_DRAWS,
                self@ == old(self)@,
            decreases MAX_DRAWS - draws,
        {
            let topic_uri = generate_uri();
            let data_uri = generate_uri();
            match self.create_topic_under(
                topic_name.clone(),
                resource_type.clone(),
                topic_uri,
                data_uri,
            ) {
                Ok(response) => {
                    proof {
                        assert(answered(self@.collection, response@) == create(
                            old(self)@.collection,
                            topic_name@,
                            resource_type@,
                            topic_uri@,
                            data_uri@,
                        ));
                    }
                    return response;
                },
                Err(_) => {},
            }
            draws = draws + 1;
        }
        match self.first_free_pair() {
            Some((topic_uri, data_uri)) => {
                match self.create_topic_under(
                    topic_name.clone(),
                    resource_type.clone(),
                    topic_uri,
                    data_uri,
                ) {
                    Ok(response) => {
                        proof {
                            assert(answered(self@.collection, response@) == create(
                                old(self)@.collection,
                                topic_name@,
                                resource_type@,
                                topic_uri@,
                                data_uri@,
                            ));
                        }
                        response
                    },
                    Err(error) => error.response(),
                }
            },
            None => BrokerError::Conflict.response(),
        }
    }

    /// Creates a topic from what the body of a creation request gave as
    /// its name and its resource type; refuses the request where either is
    /// missing.
    pub fn create_from(
        &mut self,
        topic_name: Option<String>,
        resource_type: Option<String>,
    ) -> (response: Response)
        ensures
            match (topic_name, resource_type) {
                (Some(name), Some(kind)) => created_or_refused(
                    old(self)@.collection,
                    name@,
                    kind@,
                    answered(final(self)@.collection, response@),
                ),
                _ => answered(final(self)@.collection, response@) == answered(
                    old(self)@.collection,
                    error_reply(BrokerError::BadRequest),
                ),
            },
            final(self)@.url == old(self)@.url,
            old(self)@.collection.well_formed() ==> final(self)@.collection.well_formed(),
    {
        match (topic_name, resource_type) {
            (Some(name), Some(kind)) => self.create_topic(&name, &kind),
            _ => BrokerError::BadRequest.response(),
        }
    }

    /// Lists all topics: for each its name and where it and its data are
    /// reached.
    pub fn handle_discovery(&self) -> (response: Response)
        ensures
            response@ == listing_reply(self@.collection),
    {
        let topics = self.collection.get_topics();
        let mut entries: Vec<String> = Vec::new();
        let mut i: usize = 0;
        while i < topics.len()
            invariant
                i <= topics.len(),
                entries.deep_view() == Seq::new(
                    i as nat,
                    |k: int| listing_entry(topic_views(topics@)[k]),
                ),
            decreases topics.len() - i,
        {
            let topic = &topics[i];
            let mut places: Vec<String> = Vec::new();
            places.push(quoted(joined("topic:", topic.topic_uri.as_str()).as_str()));
            places.push(quoted(joined("data:", topic.topic_data.as_str()).as_str()));
            let mut entry: Vec<String> = Vec::new();
            entry.push(quoted(topic.topic_name.as_str()));
            entry.push(json_array(&places));
            let ghost before = entries.deep_view();
            let written = json_array(&entry);
            entries.push(written);
            proof {
                assert(places.deep_view() =~= seq![places@[0]@, places@[1]@]);
                assert(entry.deep_view() =~= seq![entry@[0]@, entry@[1]@]);
                assert(entries.deep_view() =~= before.push(written@));
                assert(entries.deep_view() =~= Seq::new(
                    (i + 1) as nat,
                    |k: int| listing_entry(topic_views(topics@)[k]),
                ));
            }
            i = i + 1;
        }
        Response::plain(Status::Content, json_array(&entries).as_str())
    }

    /// Tells where the broker is reached.
    pub fn handle_broker_discovery(&self) -> (response: Response)
        ensures
            response@ == discovery_reply(seq![broker_link(self@.url)], false),
    {
        let mut links: Vec<Link> = Vec::new();
        links.push(resource_link_to(self.url.clone(), "core.ps"));
        proof {
            lemma_attribute_keys();
            assert(link_views(links@) =~= seq![broker_link(self@.url)]);
        }
        discovery_response(&links, false)
    }

    /// Tells where the topic collection is reached.
    pub fn handle_topic_collection_discovery(&self) -> (response: Response)
        ensures
            response@ == discovery_reply(seq![collection_link(self@.collection.name)], true),
    {
        let mut attributes: Vec<Attribute> = Vec::new();
        attributes.push(
            Attribute { key: String::from_str("rt"), value: String::from_str("core.ps.coll") },
        );
        attributes.push(Attribute { key: String::from_str("ct"), value: String::from_str("40") });
        let link = Link { target: joined("/", self.collection.get_name()), attributes };
        let mut links: Vec<Link> = Vec::new();
        links.push(link);
        proof {
            lemma_attribute_keys();
            assert(links@[0]@.attributes =~= collection_link(self@.collection.name).attributes);
            assert(link_views(links@) =~= seq![collection_link(self@.collection.name)]);
        }
        discovery_response(&links, true)
    }

    /// Lists the topic configurations.
    pub fn handle_topic_configuration_discovery(&self) -> (response: Response)
        ensures
            response@ == discovery_reply(configuration_links(self@.collection.topics), true),
    {
        let topics = self.collection.get_topics();
        let mut links: Vec<Link> = Vec::new();
        let mut i: usize = 0;
        proof {
            lemma_attribute_keys();
            assert(topic_views(topics@).take(0) =~= Seq::<TopicView>::empty());
            assert(link_views(links@) =~= Seq::<LinkView>::empty());
        }
        while i < topics.len()
            invariant
                i <= topics.len(),
                is_key("rt"@),
                link_views(links@) == configuration_links(topic_views(topics@).take(i as int)),
                keys_valid(link_views(links@)),
            decreases topics.len() - i,
        {
            let topic = &topics[i];
            proof {
                assert(topic_views(topics@).take(i + 1).drop_last() =~= topic_views(topics@).take(
                    i as int,
                ));
            }
            if same_text(topic.resource_type.as_str(), "core.ps.conf") {
                let ghost before = link_views(links@);
                let link = resource_link_to(
                    joined("/ps/", topic.topic_uri.as_str()),
                    "core.ps.conf",
                );
                links.push(link);
                proof {
                    assert(link_views(links@) =~= before.push(link@));
                }
            }
            i = i + 1;
        }
        proof {
            assert(topic_views(topics@).take(i as int) =~= topic_views(topics@));
        }
        discovery_response(&links, true)
    }

    /// Lists the data resources.
    pub fn handle_topic_data_discovery(&self) -> (response: Response)
        ensures
            response@ == discovery_reply(data_links(self@.collection.topics), true),
    {
        let topics = self.collection.get_topics();
        let mut links: Vec<Link> = Vec::new();
        let mut i: usize = 0;
        proof {
            lemma_attribute_keys();
            assert(topic_views(topics@).take(0) =~= Seq::<TopicView>::empty());
            assert(link_views(links@) =~= Seq::<LinkView>::empty());
        }
        while i < topics.len()
            invariant
                i <= topics.len(),
                is_key("rt"@),
                link_views(links@) == data_links(topic_views(topics@).take(i as int)),
                keys_valid(link_views(links@)),
            decreases topics.len() - i,
        {
            let topic = &topics[i];
            proof {
                assert(topic_views(topics@).take(i + 1).drop_last() =~= topic_views(topics@).take(
                    i as int,
                ));
            }
            if same_text(topic.data_resource.get_resource_type(), "core.ps.data") {
                let ghost before = link_views(links@);
                let link = resource_link_to(
                    joined("/ps/data/", topic.topic_data.as_str()),
                    "core.ps.data",
                );
                links.push(link);
                proof {
                    assert(link_views(links@) =~= before.push(link@));
                }
            }
            i = i + 1;
        }
        proof {
            assert(topic_views(topics@).take(i as int) =~= topic_views(topics@));
        }
        discovery_response(&links, true)
    }

    /// Answers a request that no handler serves.
    pub fn handle_invalid_path() -> (response: Response)
        ensures
            response@ == error_reply(BrokerError::NotFound),
    {
        BrokerError::NotFound.response()
    }

    /// Serves a request on the route it was given.
    fn dispatch(
        &mut self,
        route: Result<Route, BrokerError>,
        components: &Vec<String>,
        request: &Request,
    ) -> (reply: Reply)
        requires
            takes_data_uri(route) ==> components@.len() == 3,
            route == Ok::<Route, BrokerError>(Route::DeleteTopic) ==> components@.len() >= 1,
        ensures
            if route == Ok::<Route, BrokerError>(Route::CreateTopic) && requested_name(request@)
                is Some && requested_type(request@) is Some {
                created_or_refused(
                    old(self)@.collection,
                    requested_name(request@).unwrap(),
                    requested_type(request@).unwrap(),
                    outcome_of(final(self)@, reply@),
                )
            } else {
                outcome_of(final(self)@, reply@) == serve_route(
                    old(self)@.collection,
                    old(self)@.url,
                    route,
                    components.deep_view(),
                    request@,
                )
            },
            final(self)@.url == old(self)@.url,
            old(self)@.collection.well_formed() ==> final(self)@.collection.well_formed(),
    {
        let response = match route {
            Ok(Route::TopicListing) => self.handle_discovery(),
            Ok(Route::BrokerDiscovery) => self.handle_broker_discovery(),
            Ok(Route::CollectionDiscovery) => self.handle_topic_collection_discovery(),
            Ok(Route::ConfigurationDiscovery) => self.handle_topic_configuration_discovery(),
            Ok(Route::DataDiscovery) => self.handle_topic_data_discovery(),
            Ok(Route::Subscribe) => self.handle_subscription(
                components[2].as_str(),
                request.source,
                SubscriptionAction::Subscribe,
            ),
            Ok(Route::Unsubscribe) => self.handle_subscription(
                components[2].as_str(),
                request.source,
                SubscriptionAction::Unsubscribe,
            ),
            Ok(Route::ReadLatest) => self.handle_get_latest_data(components[2].as_str()),
            Ok(Route::CreateTopic) => {
                let topic_name = string_member(&request.payload, "topic-name");
                let resource_type = string_member(&request.payload, "resource-type");
                self.create_from(topic_name, resource_type)
            },
            Ok(Route::Publish) => {
                return self.update_topic_data(components[2].as_str(), &request.payload);
            },
            Ok(Route::DeleteTopic) => self.delete_topic(
                components[components.len() - 1].as_str(),
            ),
            Err(error) => error.response(),
        };
        let reply = Reply { response, notifications: Vec::new() };
        proof {
            assert(reply@.notifications =~= Seq::empty());
        }
        reply
    }

    /// Serves a `GET` request: discovery, subscription, unsubscription or
    /// reading, by its path and its Observe option.
    pub fn handle_get(&mut self, request: &Request) -> (response: Response)
        ensures
            answered(final(self)@.collection, response@) == serve(
                old(self)@.collection,
                old(self)@.url,
                with_method(request@, Method::Get),
            ),
            final(self)@.url == old(self)@.url,
            old(self)@.collection.well_formed() ==> final(self)@.collection.well_formed(),
    {
        let components = split_path(request.path.as_str());
        let route = classify(Method::Get, &components, request.observe);
        self.dispatch(route, &components, request).response
    }

    /// Serves a `POST` request: the creation of a topic.
    pub fn handle_post(&mut self, request: &Request) -> (response: Response)
        ensures
            if draws_identifiers(with_method(request@, Method::Post)) {
                created_or_refused(
                    old(self)@.collection,
                    requested_name(request@).unwrap(),
                    requested_type(request@).unwrap(),
                    answered(final(self)@.collection, response@),
                )
            } else {
                answered(final(self)@.collection, response@) == serve(
                    old(self)@.collection,
                    old(self)@.url,
                    with_method(request@, Method::Post),
                )
            },
            final(self)@.url == old(self)@.url,
            old(self)@.collection.well_formed() ==> final(self)@.collection.well_formed(),
    {
        let components = split_path(request.path.as_str());
        let route = classify(Method::Post, &components, request.observe);
        self.dispatch(route, &components, request).response
    }

    /// Serves a `PUT` request: a publish, with the notifications that are
    /// due.
    pub fn handle_put(&mut self, request: &Request) -> (reply: Reply)
        ensures
            outcome_of(final(self)@, reply@) == serve(
                old(self)@.collection,
                old(self)@.url,
                with_method(request@, Method::Put),
            ),
            final(self)@.url == old(self)@.url,
            old(self)@.collection.well_formed() ==> final(self)@.collection.well_formed(),
    {
        let components = split_path(request.path.as_str());
        let route = classify(Method::Put, &components, request.observe);
        self.dispatch(route, &components, request)
    }

    /// Serves a `DELETE` request: the deletion of a topic.
    pub fn handle_delete(&mut self, request: &Request) -> (response: Response)
        ensures
            answered(final(self)@.collection, response@) == serve(
                old(self)@.collection,
                old(self)@.url,
                with_method(request@, Method::Delete),
            ),
            final(self)@.url == old(self)@.url,
            old(self)@.collection.well_formed() ==> final(self)@.collection.well_formed(),
    {
        let components = split_path(request.path.as_str());
        let route = classify(Method::Delete, &components, request.observe);
        self.dispatch(route, &components, request).response
    }

    /// Serves one request: finds its handler by method, path and Observe
    /// option, and hands back the answer and the notifications that are
    /// due.
    pub fn handle_request(&mut self, request: &Request) -> (reply: Reply)
        ensures
            if draws_identifiers(request@) {
                created_or_refused(
                    old(self)@.collection,
                    requested_name(request@).unwrap(),
                    requested_type(request@).unwrap(),
                    outcome_of(final(self)@, reply@),
                )
            } else {
                outcome_of(final(self)@, reply@) == serve(
                    old(self)@.collection,
                    old(self)@.url,
                    request@,
                )
            },
            final(self)@.url == old(self)@.url,
            old(self)@.collection.well_formed() ==> final(self)@.collection.well_formed(),
    {
        let components = split_path(request.path.as_str());
        let route = classify(request.method, &components, request.observe);
        self.dispatch(route, &components, request)
    }

    /// Publishes the given payloads under `topic_data_uri`, one after the
    /// other, and hands back the answer to each and the notifications that
    /// became due, in the order in which they did. An endpoint that is
    /// subscribed there, once, is due the payloads as they were published
    /// and in their order, where all of them are UTF-8.
    pub fn publish_all(&mut self, topic_data_uri: &str, payloads: &Vec<Vec<u8>>) -> (published: (
        Vec<Response>,
        Vec<Notification>,
    ))
        ensures
            (Published {
                state: final(self)@.collection,
                responses: response_views(published.0@),
                notifications: notification_views(published.1@),
            }) == publish_all(old(self)@.collection, topic_data_uri@, payload_views(payloads@)),
            forall|subscriber: Endpoint|
                subscribed_once(old(self)@.collection, topic_data_uri@, subscriber) && (forall|
                    k: int,
                |
                    0 <= k < payloads@.len() ==> valid_utf8(#[trigger] payloads@[k]@))
                    ==> #[trigger] payloads_for(notification_views(published.1@), subscriber)
                    == payload_views(payloads@),
            final(self)@.url == old(self)@.url,
            old(self)@.collection.well_formed() ==> final(self)@.collection.well_formed(),
    {
        let mut responses: Vec<Response> = Vec::new();
        let mut notifications: Vec<Notification> = Vec::new();
        let mut i: usize = 0;
        proof {
            assert(payload_views(payloads@).take(0) =~= Seq::<Seq<u8>>::empty());
            assert(response_views(responses@) =~= Seq::<ResponseView>::empty());
            assert(notification_views(notifications@) =~= Seq::<NotificationView>::empty());
        }
        while i < payloads.len()
            invariant
                i <= payloads.len(),
                self@.url == old(self)@.url,
                old(self)@.collection.well_formed() ==> self@.collection.well_formed(),
                (Published {
                    state: self@.collection,
                    responses: response_views(responses@),
                    notifications: notification_views(notifications@),
                }) == publish_all(
                    old(self)@.collection,
                    topic_data_uri@,
                    payload_views(payloads@).take(i as int),
                ),
            decreases payloads.len() - i,
        {
            let ghost answered_before = response_views(responses@);
            let ghost due_before = notification_views(notifications@);
            let Reply { response, notifications: mut due } = self.update_topic_data(
                topic_data_uri,
                &payloads[i],
            );
            let ghost due_now = notification_views(due@);
            responses.push(response);
            notifications.append(&mut due);
            proof {
                let given = payload_views(payloads@);
                assert(given.take(i + 1).drop_last() =~= given.take(i as int));
                assert(given.take(i + 1).last() == payloads@[i as int]@);
                assert(response_views(responses@) =~= answered_before.push(response@));
                assert(notification_views(notifications@) =~= due_before + due_now);
            }
            i = i + 1;
        }
        proof {
            let given = payload_views(payloads@);
            assert(given.take(i as int) =~= given);
            assert forall|subscriber: Endpoint|
                subscribed_once(old(self)@.collection, topic_data_uri@, subscriber) && (forall|
                    k: int,
                |
                    0 <= k < payloads@.len() ==> valid_utf8(
                        #[trigger] payloads@[k]@,
                    )) implies #[trigger] payloads_for(
                notification_views(notifications@),
                subscriber,
            ) == given by {
                assert forall|k: int| 0 <= k < given.len() implies valid_utf8(
                    #[trigger] given[k],
                ) by {
                    assert(given[k] == payloads@[k]@);
                }
                law_notifications_in_order(
                    old(self)@.collection,
                    topic_data_uri@,
                    given,
                    subscriber,
                );
            }
        }
        (responses, notifications)
    }

    /// Deletes the topic under `topic_uri`.
    pub fn delete_topic(&mut self, topic_uri: &str) -> (response: Response)
        ensures
            answered(final(self)@.collection, response@) == delete(
                old(self)@.collection,
                topic_uri@,
            ),
            final(self)@.url == old(self)@.url,
            old(self)@.collection.well_formed() ==> final(self)@.collection.well_formed(),
    {
        self.collection.remove_topic(topic_uri);
        Response::plain(Status::Deleted, "Topic deleted succesfully")
    }
}

/// What a broker and its reply stand for: the collection it is left with,
/// the answer and the notifications.
pub open spec fn outcome_of(broker: BrokerView, reply: ReplyView) -> Outcome {
    Outcome {
        state: broker.collection,
        response: reply.response,
        notifications: reply.notifications,
    }
}

/// The routes that act on the data under the third component of the
/// path.
pub open spec fn takes_data_uri(route: Result<Route, BrokerError>) -> bool {
    route matches Ok(found) && (found == Route::Subscribe || found == Route::Unsubscribe || found
        == Route::ReadLatest || found == Route::Publish)
}

/// How often a creation draws identifiers before it gives up.
pub const MAX_DRAWS: usize = 64;

/// The keys of the attributes that the broker writes are keys.
pub proof fn lemma_attribute_keys()
    ensures
        is_key("rt"@),
        is_key("ct"@),
{
    reveal_strlit("rt");
    reveal_strlit("ct");
}

/// A link to `target` that names its resource type.
fn resource_link_to(target: String, resource_type: &str) -> (link: Link)
    ensures
        link@ == resource_link(target@, resource_type@),
{
    let mut attributes: Vec<Attribute> = Vec::new();
    attributes.push(
        Attribute { key: String::from_str("rt"), value: String::from_str(resource_type) },
    );
    let link = Link { target, attributes };
    proof {
        assert(link@.attributes =~= resource_link(target@, resource_type@).attributes);
    }
    link
}

/// The answer to a discovery request: the links as a link-format document.
fn discovery_response(links: &Vec<Link>, line_breaks: bool) -> (response: Response)
    requires
        keys_valid(link_views(links@)),
    ensures
        response@ == discovery_reply(link_views(links@), line_breaks),
{
    let text = write_link_format(links, line_breaks);
    Response {
        status: Status::Content,
        payload: bytes_of(text.as_str()),
        content_format: Some(ContentFormat::LinkFormat),
        observe: None,
    }
}

/// The body that answers a creation.
fn creation_text(
    topic_name: &str,
    resource_type: &str,
    topic_uri: &str,
    data_uri: &str,
) -> (text: String)
    ensures
        text@ == creation_body(topic_name@, resource_type@, topic_uri@, data_uri@),
{
    let mut members: Vec<(String, String)> = Vec::new();
    members.push((quoted("Location-Path"), quoted(joined("ps/", topic_uri).as_str())));
    members.push((quoted("resource-type"), quoted(resource_type)));
    members.push((quoted("topic-data"), quoted(joined("ps/data/", data_uri).as_str())));
    members.push((quoted("topic-name"), quoted(topic_name)));
    proof {
        assert(members.deep_view() =~= seq![
            (members@[0].0@, members@[0].1@),
            (members@[1].0@, members@[1].1@),
            (members@[2].0@, members@[2].1@),
            (members@[3].0@, members@[3].1@),
        ]);
    }
    json_object(&members)
}

/// The message that tells one subscriber of a publish of `payload`.
pub fn notification(recipient: Endpoint, payload: Vec<u8>) -> (notification: Notification)
    ensures
        notification@ == (NotificationView {
            recipient,
            message: crate::message::notification_message(payload@),
        }),
{
    Notification {
        recipient,
        message: Response {
            status: Status::Changed,
            payload,
            content_format: Some(ContentFormat::Notification),
            observe: Some(OBSERVE_NOTIFICATION),
        },
    }
}

/// One notification of `payload` for each of the subscribers, in their
/// order.
pub fn notify_all(subscribers: &Vec<Endpoint>, payload: &Vec<u8>) -> (notifications: Vec<
    Notification,
>)
    ensures
        notification_views(notifications@) == notifications_for(subscribers@, payload@),
{
    let mut notifications: Vec<Notification> = Vec::new();
    let mut i: usize = 0;
    while i < subscribers.len()
        invariant
            i <= subscribers.len(),
            notifications@.len() == i,
            forall|k: int|
                0 <= k < i ==> (#[trigger] notifications@[k])@ == notifications_for(
                    subscribers@,
                    payload@,
                )[k],
        decreases subscribers.len() - i,
    {
        let copy = payload.clone();
        assert(copy@ =~= payload@);
        notifications.push(notification(subscribers[i], copy));
        i = i + 1;
    }
    proof {
        assert(notification_views(notifications@) =~= notifications_for(subscribers@, payload@));
    }
    notifications
}

/// A collection stays well formed where one topic is replaced by a well
/// formed topic with the same identifiers.
pub proof fn lemma_update_keeps_well_formed(state: TopicCollectionView, at: int, topic: TopicView)
    requires
        state.well_formed(),
        0 <= at < state.topics.len(),
        topic.well_formed(),
        topic.topic_uri == state.topics[at].topic_uri,
        topic.topic_data == state.topics[at].topic_data,
    ensures
        state.with_topics(state.topics.update(at, topic)).well_formed(),
{
    let after = state.topics.update(at, topic);
    assert forall|i: int| 0 <= i < after.len() implies (#[trigger] after[i]).well_formed() by {
        if i != at {
            assert(after[i] == state.topics[i]);
        }
    }
    assert forall|i: int, j: int| 0 <= i < j < after.len() implies {
        &&& (#[trigger] after[i]).topic_uri != (#[trigger] after[j]).topic_uri
        &&& after[i].topic_data != after[j].topic_data
    } by {
        assert(after[i].topic_uri == state.topics[i].topic_uri);
        assert(after[j].topic_uri == state.topics[j].topic_uri);
        assert(after[i].topic_data == state.topics[i].topic_data);
        assert(after[j].topic_data == state.topics[j].topic_data);
    }
}

} // verus!
