//! The resource model: data resources, topic configurations and the topic
//! collection that holds them.

use crate::endpoint::Endpoint;
use crate::error::BrokerError;
use crate::text::same_text;
use crate::uri::{generate_uri, is_uri};
use vstd::prelude::*;
use vstd::string::*;

verus! {

/// The resource type of a data resource.
pub open spec fn data_resource_type() -> Seq<char> {
    "core.ps.data"@
}

/// The resource type of a topic configuration.
pub open spec fn topic_resource_type() -> Seq<char> {
    "core.ps.conf"@
}

/// The resource type of a topic collection.
pub open spec fn collection_resource_type() -> Seq<char> {
    "core.ps.coll"@
}

/// What a data resource names as its parent while no topic owns it.
pub open spec fn unowned_parent() -> Seq<char> {
    "yolo"@
}

/// `endpoints` without every occurrence of `endpoint`.
pub open spec fn without_endpoint(endpoints: Seq<Endpoint>, endpoint: Endpoint) -> Seq<Endpoint>
    decreases endpoints.len(),
{
    if endpoints.len() == 0 {
        endpoints
    } else if endpoints.last() == endpoint {
        without_endpoint(endpoints.drop_last(), endpoint)
    } else {
        without_endpoint(endpoints.drop_last(), endpoint).push(endpoints.last())
    }
}

/// `endpoints` with `endpoint` added at the end, unless it is there
/// already.
pub open spec fn with_endpoint(endpoints: Seq<Endpoint>, endpoint: Endpoint) -> Seq<Endpoint> {
    if endpoints.contains(endpoint) {
        endpoints
    } else {
        endpoints.push(endpoint)
    }
}

/// The first occurrence of each endpoint of `endpoints`, in order.
pub open spec fn distinct_endpoints(endpoints: Seq<Endpoint>) -> Seq<Endpoint>
    decreases endpoints.len(),
{
    if endpoints.len() == 0 {
        endpoints
    } else {
        with_endpoint(distinct_endpoints(endpoints.drop_last()), endpoints.last())
    }
}

/// The model of a data resource.
pub struct DataResourceView {
    pub data_uri: Seq<char>,
    pub parent_topic_uri: Seq<char>,
    pub resource_type: Seq<char>,
    /// The subscribed endpoints, in the order in which they subscribed.
    pub subscribers: Seq<Endpoint>,
    /// The payload published last; empty before the first publish.
    pub data: Seq<char>,
}

impl DataResourceView {
    /// No endpoint is subscribed twice.
    pub open spec fn well_formed(self) -> bool {
        self.subscribers.no_duplicates()
    }
}

/// The latest payload of a topic and the endpoints that observe it.
pub struct DataResource {
    data_uri: String,
    parent_topic_uri: String,
    resource_type: String,
    subscribers: Vec<Endpoint>,
    data: String,
}

impl View for DataResource {
    type V = DataResourceView;

    closed spec fn view(&self) -> DataResourceView {
        DataResourceView {
            data_uri: self.data_uri@,
            parent_topic_uri: self.parent_topic_uri@,
            resource_type: self.resource_type@,
            subscribers: self.subscribers@,
            data: self.data@,
        }
    }
}

impl Default for DataResource {
    /// The data resource with every field empty.
    fn default() -> (resource: DataResource)
        ensures
            resource@ == (DataResourceView {
                data_uri: Seq::empty(),
                parent_topic_uri: Seq::empty(),
                resource_type: Seq::empty(),
                subscribers: Seq::empty(),
                data: Seq::empty(),
            }),
    {
        DataResource {
            data_uri: String::new(),
            parent_topic_uri: String::new(),
            resource_type: String::new(),
            subscribers: Vec::new(),
            data: String::new(),
        }
    }
}

impl DataResource {
    /// A data resource that no topic owns yet, under a freshly drawn
    /// identifier, without subscribers and without data.
    pub fn new() -> (resource: DataResource)
        ensures
            is_uri(resource@.data_uri),
            resource@ == (DataResourceView {
                data_uri: resource@.data_uri,
                parent_topic_uri: unowned_parent(),
                resource_type: data_resource_type(),
                subscribers: Seq::empty(),
                data: Seq::empty(),
            }),
    {
        DataResource {
            data_uri: generate_uri(),
            parent_topic_uri: String::from_str("yolo"),
            resource_type: String::from_str("core.ps.data"),
            subscribers: Vec::new(),
            data: String::new(),
        }
    }

    /// The data resource of the topic `parent_topic_uri`, reached under
    /// `data_uri`, without subscribers and without data.
    pub fn owned(data_uri: String, parent_topic_uri: String) -> (resource: DataResource)
        ensures
            resource@ == (DataResourceView {
                data_uri: data_uri@,
                parent_topic_uri: parent_topic_uri@,
                resource_type: data_resource_type(),
                subscribers: Seq::empty(),
                data: Seq::empty(),
            }),
    {
        DataResource {
            data_uri,
            parent_topic_uri,
            resource_type: String::from_str("core.ps.data"),
            subscribers: Vec::new(),
            data: String::new(),
        }
    }

    /// The identifier under which the data is reached.
    pub fn get_data_uri(&self) -> (data_uri: &str)
        ensures
            data_uri@ == self@.data_uri,
    {
        self.data_uri.as_str()
    }

    /// The identifier of the topic that owns the data resource.
    pub fn get_parent_topic_uri(&self) -> (parent_topic_uri: &str)
        ensures
            parent_topic_uri@ == self@.parent_topic_uri,
    {
        self.parent_topic_uri.as_str()
    }

    /// The resource type.
    pub fn get_resource_type(&self) -> (resource_type: &str)
        ensures
            resource_type@ == self@.resource_type,
    {
        self.resource_type.as_str()
    }

    /// The subscribed endpoints, in the order in which they subscribed.
    pub fn get_subscribers(&self) -> (subscribers: &Vec<Endpoint>)
        ensures
            subscribers@ == self@.subscribers,
    {
        &self.subscribers
    }

    /// The payload published last.
    pub fn get_data(&self) -> (data: &String)
        ensures
            data@ == self@.data,
    {
        &self.data
    }

    /// Replaces the identifier under which the data is reached.
    pub fn set_data_uri(&mut self, data_uri: String)
        ensures
            final(self)@ == (DataResourceView { data_uri: data_uri@, ..old(self)@ }),
    {
        self.data_uri = data_uri;
    }

    /// Replaces the identifier of the owning topic.
    pub fn set_parent_topic_uri(&mut self, parent_topic_uri: String)
        ensures
            final(self)@ == (DataResourceView {
                parent_topic_uri: parent_topic_uri@,
                ..old(self)@
            }),
    {
        self.parent_topic_uri = parent_topic_uri;
    }

    /// Replaces the resource type.
    pub fn set_resource_type(&mut self, resource_type: String)
        ensures
            final(self)@ == (DataResourceView { resource_type: resource_type@, ..old(self)@ }),
    {
        self.resource_type = resource_type;
    }

    /// Replaces the subscribers by the given endpoints, each kept once, at
    /// its first place.
    pub fn set_subscribers(&mut self, subscribers: Vec<Endpoint>)
        ensures
            final(self)@ == (DataResourceView {
                subscribers: distinct_endpoints(subscribers@),
                ..old(self)@
            }),
            final(self)@.well_formed(),
    {
        let mut kept: Vec<Endpoint> = Vec::new();
        let mut i: usize = 0;
        proof {
            assert(subscribers@.take(0) =~= Seq::<Endpoint>::empty());
        }
        while i < subscribers.len()
            invariant
                i <= subscribers.len(),
                kept@ == distinct_endpoints(subscribers@.take(i as int)),
                kept@.no_duplicates(),
            decreases subscribers.len() - i,
        {
            proof {
                assert(subscribers@.take(i + 1).drop_last() =~= subscribers@.take(i as int));
            }
            if !contains_endpoint(&kept, subscribers[i]) {
                kept.push(subscribers[i]);
            }
            i = i + 1;
        }
        proof {
            assert(subscribers@.take(i as int) =~= subscribers@);
        }
        self.subscribers = kept;
    }

    /// Replaces the payload.
    pub fn set_data(&mut self, data: String)
        ensures
            final(self)@ == (DataResourceView { data: data@, ..old(self)@ }),
    {
        self.data = data;
    }

    /// Subscribes `subscriber`; nothing changes where it is subscribed
    /// already.
    pub fn add_subscriber(&mut self, subscriber: Endpoint)
        ensures
            final(self)@ == (DataResourceView {
                subscribers: with_endpoint(old(self)@.subscribers, subscriber),
                ..old(self)@
            }),
            old(self)@.well_formed() ==> final(self)@.well_formed(),
    {
        if !contains_endpoint(&self.subscribers, subscriber) {
            self.subscribers.push(subscriber);
        }
    }

    /// Unsubscribes `subscriber`; nothing changes where it is not
    /// subscribed.
    pub fn remove_subscriber(&mut self, subscriber: Endpoint)
        ensures
            final(self)@ == (DataResourceView {
                subscribers: without_endpoint(old(self)@.subscribers, subscriber),
                ..old(self)@
            }),
            old(self)@.well_formed() ==> final(self)@.well_formed(),
    {
        let mut kept: Vec<Endpoint> = Vec::new();
        let mut i: usize = 0;
        proof {
            assert(self.subscribers@.take(0) =~= Seq::<Endpoint>::empty());
        }
        while i < self.subscribers.len()
            invariant
                i <= self.subscribers.len(),
                kept@ == without_endpoint(self.subscribers@.take(i as int), subscriber),
            decreases self.subscribers.len() - i,
        {
            proof {
                assert(self.subscribers@.take(i + 1).drop_last() =~= self.subscribers@.take(
                    i as int,
                ));
            }
            if self.subscribers[i] != subscriber {
                kept.push(self.subscribers[i]);
            }
            i = i + 1;
        }
        proof {
            assert(self.subscribers@.take(i as int) =~= self.subscribers@);
            lemma_without_endpoint(self.subscribers@, subscriber);
        }
        self.subscribers = kept;
    }

    /// True exactly when `subscriber` is subscribed.
    pub fn has_subscriber(&self, subscriber: Endpoint) -> (found: bool)
        ensures
            found == self@.subscribers.contains(subscriber),
    {
        contains_endpoint(&self.subscribers, subscriber)
    }
}

/// The number of subscribers a topic admits unless it is told otherwise.
pub const DEFAULT_MAX_SUBSCRIBERS: u32 = u32::MAX;

/// The seconds between two checks on observers unless a topic is told
/// otherwise.
pub const DEFAULT_OBSERVE_CHECK: u32 = 86400;

/// The model of a topic configuration.
pub struct TopicView {
    pub topic_name: Seq<char>,
    pub resource_type: Seq<char>,
    pub topic_uri: Seq<char>,
    pub topic_data: Seq<char>,
    pub media_type: Seq<char>,
    pub topic_type: Seq<char>,
    pub expiration_date: Seq<char>,
    pub max_subscribers: u32,
    pub observe_check: u32,
    pub data_resource: DataResourceView,
    pub half_created: bool,
}

impl TopicView {
    /// The data resource is reached under the topic's data identifier,
    /// names the topic as its parent, has the resource type of a data
    /// resource and holds no subscriber twice.
    pub open spec fn well_formed(self) -> bool {
        &&& self.data_resource.well_formed()
        &&& self.data_resource.data_uri == self.topic_data
        &&& self.data_resource.parent_topic_uri == self.topic_uri
        &&& self.data_resource.resource_type == data_resource_type()
    }

    /// The same topic with other subscribers.
    pub open spec fn with_subscribers(self, subscribers: Seq<Endpoint>) -> TopicView {
        TopicView {
            data_resource: DataResourceView { subscribers, ..self.data_resource },
            ..self
        }
    }

    /// The same topic after a publish of `data`: fully created, holding
    /// the new payload.
    pub open spec fn published(self, data: Seq<char>) -> TopicView {
        TopicView {
            data_resource: DataResourceView { data, ..self.data_resource },
            half_created: false,
            ..self
        }
    }
}

/// The topic that creation yields: half created, with its own data
/// resource, no subscribers, no data and the default settings.
pub open spec fn created_topic(
    topic_name: Seq<char>,
    resource_type: Seq<char>,
    topic_uri: Seq<char>,
    topic_data: Seq<char>,
) -> TopicView {
    TopicView {
        topic_name,
        resource_type,
        topic_uri,
        topic_data,
        media_type: Seq::empty(),
        topic_type: Seq::empty(),
        expiration_date: Seq::empty(),
        max_subscribers: DEFAULT_MAX_SUBSCRIBERS,
        observe_check: DEFAULT_OBSERVE_CHECK,
        data_resource: DataResourceView {
            data_uri: topic_data,
            parent_topic_uri: topic_uri,
            resource_type: data_resource_type(),
            subscribers: Seq::empty(),
            data: Seq::empty(),
        },
        half_created: true,
    }
}

/// A topic configuration with the data resource it owns.
pub struct Topic {
    /// A free-form label; it identifies nothing.
    pub topic_name: String,
    pub resource_type: String,
    /// The identifier under which the topic is configured and deleted.
    pub topic_uri: String,
    /// The identifier under which the topic's data is published and read.
    pub topic_data: String,
    pub media_type: String,
    pub topic_type: String,
    pub expiration_date: String,
    /// An upper bound on the subscribers; it is kept and not enforced.
    pub max_subscribers: u32,
    /// The seconds between two checks on observers.
    pub observe_check: u32,
    pub data_resource: DataResource,
    /// True from creation until the first publish.
    pub half_created: bool,
}

impl View for Topic {
    type V = TopicView;

    open spec fn view(&self) -> TopicView {
        TopicView {
            topic_name: self.topic_name@,
            resource_type: self.resource_type@,
            topic_uri: self.topic_uri@,
            topic_data: self.topic_data@,
            media_type: self.media_type@,
            topic_type: self.topic_type@,
            expiration_date: self.expiration_date@,
            max_subscribers: self.max_subscribers,
            observe_check: self.observe_check,
            data_resource: self.data_resource@,
            half_created: self.half_created,
        }
    }
}

impl Topic {
    /// A half-created topic under two freshly drawn identifiers.
    pub fn new(topic_name: String, resource_type: String) -> (topic: Topic)
        ensures
            is_uri(topic@.topic_uri),
            is_uri(topic@.topic_data),
            topic@ == created_topic(
                topic_name@,
                resource_type@,
                topic@.topic_uri,
                topic@.topic_data,
            ),
            topic@.well_formed(),
    {
        Topic::with_uris(topic_name, resource_type, generate_uri(), generate_uri())
    }

    /// A half-created topic under the given identifiers.
    pub fn with_uris(
        topic_name: String,
        resource_type: String,
        topic_uri: String,
        topic_data: String,
    ) -> (topic: Topic)
        ensures
            topic@ == created_topic(topic_name@, resource_type@, topic_uri@, topic_data@),
            topic@.well_formed(),
    {
        let data_resource = DataResource::owned(topic_data.clone(), topic_uri.clone());
        Topic {
            topic_name,
            resource_type,
            topic_uri,
            topic_data,
            media_type: String::new(),
            topic_type: String::new(),
            expiration_date: String::new(),
            max_subscribers: DEFAULT_MAX_SUBSCRIBERS,
            observe_check: DEFAULT_OBSERVE_CHECK,
            data_resource,
            half_created: true,
        }
    }

    /// Replaces the data resource.
    pub fn set_data_resource(&mut self, dr: DataResource)
        ensures
            final(self)@ == (TopicView { data_resource: dr@, ..old(self)@ }),
    {
        self.data_resource = dr;
    }

    /// The data resource, to be changed in place.
    pub fn get_data_resource(&mut self) -> (dr: &mut DataResource)
        ensures
            dr@ == old(self)@.data_resource,
            final(self)@ == (TopicView { data_resource: final(dr)@, ..old(self)@ }),
    {
        &mut self.data_resource
    }

    /// The data resource.
    pub fn get_dr(&self) -> (dr: &DataResource)
        ensures
            dr@ == self@.data_resource,
    {
        &self.data_resource
    }

    /// Replaces the identifier of the topic.
    pub fn set_topic_uri(&mut self, topic_uri: String)
        ensures
            final(self)@ == (TopicView { topic_uri: topic_uri@, ..old(self)@ }),
    {
        self.topic_uri = topic_uri;
    }

    /// Replaces the identifier of the topic's data.
    pub fn set_topic_data(&mut self, topic_data: String)
        ensures
            final(self)@ == (TopicView { topic_data: topic_data@, ..old(self)@ }),
    {
        self.topic_data = topic_data;
    }

    /// Replaces the media type.
    pub fn set_media_type(&mut self, media_type: String)
        ensures
            final(self)@ == (TopicView { media_type: media_type@, ..old(self)@ }),
    {
        self.media_type = media_type;
    }

    /// Replaces the topic type.
    pub fn set_topic_type(&mut self, topic_type: String)
        ensures
            final(self)@ == (TopicView { topic_type: topic_type@, ..old(self)@ }),
    {
        self.topic_type = topic_type;
    }

    /// Replaces the expiration date.
    pub fn set_expiration_date(&mut self, expiration_date: String)
        ensures
            final(self)@ == (TopicView { expiration_date: expiration_date@, ..old(self)@ }),
    {
        self.expiration_date = expiration_date;
    }

    /// Replaces the upper bound on the subscribers.
    pub fn set_max_subscribers(&mut self, max_subscribers: u32)
        ensures
            final(self)@ == (TopicView { max_subscribers, ..old(self)@ }),
    {
        self.max_subscribers = max_subscribers;
    }

    /// Replaces the seconds between two checks on observers.
    pub fn set_observe_check(&mut self, observe_check: u32)
        ensures
            final(self)@ == (TopicView { observe_check, ..old(self)@ }),
    {
        self.observe_check = observe_check;
    }

    /// The label of the topic.
    pub fn get_topic_name(&self) -> (topic_name: &str)
        ensures
            topic_name@ == self@.topic_name,
    {
        self.topic_name.as_str()
    }

    /// The resource type.
    pub fn get_resource_type(&self) -> (resource_type: &str)
        ensures
            resource_type@ == self@.resource_type,
    {
        self.resource_type.as_str()
    }

    /// The identifier of the topic.
    pub fn get_topic_uri(&self) -> (topic_uri: String)
        ensures
            topic_uri@ == self@.topic_uri,
    {
        self.topic_uri.clone()
    }

    /// The identifier of the topic's data.
    pub fn get_topic_data(&self) -> (topic_data: &str)
        ensures
            topic_data@ == self@.topic_data,
    {
        self.topic_data.as_str()
    }

    /// The media type.
    pub fn get_media_type(&self) -> (media_type: &str)
        ensures
            media_type@ == self@.media_type,
    {
        self.media_type.as_str()
    }

    /// The topic type.
    pub fn get_topic_type(&self) -> (topic_type: &str)
        ensures
            topic_type@ == self@.topic_type,
    {
        self.topic_type.as_str()
    }

    /// The expiration date.
    pub fn get_expiration_date(&self) -> (expiration_date: &str)
        ensures
            expiration_date@ == self@.expiration_date,
    {
        self.expiration_date.as_str()
    }

    /// The upper bound on the subscribers.
    pub fn get_max_subscribers(&self) -> (max_subscribers: u32)
        ensures
            max_subscribers == self@.max_subscribers,
    {
        self.max_subscribers
    }

    /// The seconds between two checks on observers.
    pub fn get_observe_check(&self) -> (observe_check: u32)
        ensures
            observe_check == self@.observe_check,
    {
        self.observe_check
    }
}

/// The field by which a topic is looked up.
#[derive(Clone, Copy, Debug, PartialEq, Eq, Structural)]
pub enum TopicKey {
    /// The identifier of the topic configuration.
    Uri,
    /// The identifier of the topic's data: the topic's `topic_data`, which
    /// a well-formed topic shares with its data resource.
    DataUri,
    /// The label of the topic.
    Name,
}

impl TopicView {
    /// The value of the field that `key` names.
    pub open spec fn key(self, key: TopicKey) -> Seq<char> {
        match key {
            TopicKey::Uri => self.topic_uri,
            TopicKey::DataUri => self.topic_data,
            TopicKey::Name => self.topic_name,
        }
    }
}

/// The models of the given topics, in order.
pub open spec fn topic_views(topics: Seq<Topic>) -> Seq<TopicView> {
    Seq::new(topics.len(), |i: int| topics[i]@)
}

/// The place of the first topic whose field `key` holds `value`.
pub open spec fn first_index(topics: Seq<TopicView>, key: TopicKey, value: Seq<char>) -> Option<
    int,
>
    decreases topics.len(),
{
    if topics.len() == 0 {
        None
    } else {
        match first_index(topics.drop_last(), key, value) {
            Some(i) => Some(i),
            None => if topics.last().key(key) == value {
                Some(topics.len() - 1)
            } else {
                None
            },
        }
    }
}

/// The topics whose identifier is not `topic_uri`, in order.
pub open spec fn without_topic(topics: Seq<TopicView>, topic_uri: Seq<char>) -> Seq<TopicView>
    decreases topics.len(),
{
    if topics.len() == 0 {
        topics
    } else if topics.last().topic_uri == topic_uri {
        without_topic(topics.drop_last(), topic_uri)
    } else {
        without_topic(topics.drop_last(), topic_uri).push(topics.last())
    }
}

/// The topics that a collection keeps of the given ones when they are
/// added one after the other: each but those whose identifier or data
/// identifier is held by a topic kept before.
pub open spec fn kept_topics(topics: Seq<TopicView>) -> Seq<TopicView>
    decreases topics.len(),
{
    if topics.len() == 0 {
        topics
    } else {
        let before = kept_topics(topics.drop_last());
        if first_index(before, TopicKey::Uri, topics.last().topic_uri) is Some || first_index(
            before,
            TopicKey::DataUri,
            topics.last().topic_data,
        ) is Some {
            before
        } else {
            before.push(topics.last())
        }
    }
}

/// No two topics share an identifier, nor a data identifier.
pub open spec fn distinct_uris(topics: Seq<TopicView>) -> bool {
    forall|i: int, j: int|
        0 <= i < j < topics.len() ==> {
            &&& (#[trigger] topics[i]).topic_uri != (#[trigger] topics[j]).topic_uri
            &&& topics[i].topic_data != topics[j].topic_data
        }
}

/// The place of the first data resource filed under `path`.
pub open spec fn data_index(data: Seq<(Seq<char>, DataResourceView)>, path: Seq<char>) -> Option<
    int,
>
    decreases data.len(),
{
    if data.len() == 0 {
        None
    } else {
        match data_index(data.drop_last(), path) {
            Some(i) => Some(i),
            None => if data.last().0 == path {
                Some(data.len() - 1)
            } else {
                None
            },
        }
    }
}

/// `data` with `resource` filed under `path`, in the place of what was
/// filed there before, or at the end.
pub open spec fn with_data(
    data: Seq<(Seq<char>, DataResourceView)>,
    path: Seq<char>,
    resource: DataResourceView,
) -> Seq<(Seq<char>, DataResourceView)> {
    match data_index(data, path) {
        Some(i) => data.update(i, (path, resource)),
        None => data.push((path, resource)),
    }
}

/// The model of a topic collection.
pub struct TopicCollectionView {
    /// The path segment of the collection.
    pub name: Seq<char>,
    pub resource_type: Seq<char>,
    /// The topics, in the order in which they were added.
    pub topics: Seq<TopicView>,
    /// Data resources filed under a path of their own, apart from the
    /// topics.
    pub data: Seq<(Seq<char>, DataResourceView)>,
}

impl TopicCollectionView {
    /// Every topic is well formed, and no two share an identifier or a
    /// data identifier.
    pub open spec fn well_formed(self) -> bool {
        &&& forall|i: int| 0 <= i < self.topics.len() ==> (#[trigger] self.topics[i]).well_formed()
        &&& distinct_uris(self.topics)
    }

    /// True when a topic holds `value` in its field `key`.
    pub open spec fn has_topic(self, key: TopicKey, value: Seq<char>) -> bool {
        first_index(self.topics, key, value) is Some
    }

    /// The first topic that holds `value` in its field `key`.
    pub open spec fn topic(self, key: TopicKey, value: Seq<char>) -> TopicView
        recommends
            self.has_topic(key, value),
    {
        self.topics[first_index(self.topics, key, value).unwrap()]
    }

    /// The same collection with other topics.
    pub open spec fn with_topics(self, topics: Seq<TopicView>) -> TopicCollectionView {
        TopicCollectionView { topics, ..self }
    }
}

/// A data resource filed under a path.
struct FiledData {
    path: String,
    resource: DataResource,
}

/// The paths and the models of the given filed data resources, in order.
spec fn filed_views(data: Seq<FiledData>) -> Seq<(Seq<char>, DataResourceView)> {
    Seq::new(data.len(), |i: int| (data[i].path@, data[i].resource@))
}

/// The one collection of the broker: its topics, each reached under its
/// identifier.
pub struct TopicCollection {
    name: String,
    resource_type: String,
    topics: Vec<Topic>,
    data: Vec<FiledData>,
}

impl View for TopicCollection {
    type V = TopicCollectionView;

    closed spec fn view(&self) -> TopicCollectionView {
        TopicCollectionView {
            name: self.name@,
            resource_type: self.resource_type@,
            topics: topic_views(self.topics@),
            data: filed_views(self.data@),
        }
    }
}

/// What `first_index` finds is the first match, and it finds nothing only
/// where nothing matches.
pub proof fn lemma_first_index(topics: Seq<TopicView>, key: TopicKey, value: Seq<char>)
    ensures
        match first_index(topics, key, value) {
            Some(i) => {
                &&& 0 <= i < topics.len()
                &&& topics[i].key(key) == value
                &&& forall|k: int| 0 <= k < i ==> (#[trigger] topics[k]).key(key) != value
            },
            None => forall|k: int|
                0 <= k < topics.len() ==> (#[trigger] topics[k]).key(key) != value,
        },
    decreases topics.len(),
{
    if topics.len() > 0 {
        lemma_first_index(topics.drop_last(), key, value);
        assert forall|k: int| 0 <= k < topics.len() - 1 implies topics[k]
            == topics.drop_last()[k] by {}
    }
}

/// A place that matches, with no match before it, is what `first_index`
/// finds.
pub proof fn lemma_first_index_is(topics: Seq<TopicView>, key: TopicKey, value: Seq<char>, at: int)
    requires
        0 <= at < topics.len(),
        topics[at].key(key) == value,
        forall|k: int| 0 <= k < at ==> (#[trigger] topics[k]).key(key) != value,
    ensures
        first_index(topics, key, value) == Some(at),
{
    lemma_first_index(topics, key, value);
}

/// What `data_index` finds is the first match, and it finds nothing only
/// where nothing matches.
pub proof fn lemma_data_index(data: Seq<(Seq<char>, DataResourceView)>, path: Seq<char>)
    ensures
        match data_index(data, path) {
            Some(i) => {
                &&& 0 <= i < data.len()
                &&& data[i].0 == path
                &&& forall|k: int| 0 <= k < i ==> (#[trigger] data[k]).0 != path
            },
            None => forall|k: int| 0 <= k < data.len() ==> (#[trigger] data[k]).0 != path,
        },
    decreases data.len(),
{
    if data.len() > 0 {
        lemma_data_index(data.drop_last(), path);
        assert forall|k: int| 0 <= k < data.len() - 1 implies data[k] == data.drop_last()[k] by {}
    }
}

/// Deleting by identifier leaves no topic under that identifier, takes
/// every topic left from the topics before, and keeps apart what was apart.
pub proof fn lemma_without_topic(topics: Seq<TopicView>, topic_uri: Seq<char>)
    ensures
        first_index(without_topic(topics, topic_uri), TopicKey::Uri, topic_uri) is None,
        forall|k: int|
            0 <= k < without_topic(topics, topic_uri).len() ==> topics.contains(
                #[trigger] without_topic(topics, topic_uri)[k],
            ),
        distinct_uris(topics) ==> distinct_uris(without_topic(topics, topic_uri)),
        without_topic(topics, topic_uri).len() <= topics.len(),
    decreases topics.len(),
{
    let out = without_topic(topics, topic_uri);
    if topics.len() > 0 {
        let shorter = topics.drop_last();
        let rest = without_topic(shorter, topic_uri);
        lemma_without_topic(shorter, topic_uri);
        lemma_first_index(out, TopicKey::Uri, topic_uri);
        lemma_first_index(rest, TopicKey::Uri, topic_uri);
        assert forall|k: int| 0 <= k < out.len() implies topics.contains(#[trigger] out[k]) by {
            if k < rest.len() {
                assert(out[k] == rest[k]);
                assert(shorter.contains(rest[k]));
                let j = choose|j: int| 0 <= j < shorter.len() && shorter[j] == rest[k];
                assert(topics[j] == out[k]);
            } else {
                assert(topics[topics.len() - 1] == out[k]);
            }
        }
        if distinct_uris(topics) {
            assert(distinct_uris(shorter)) by {
                assert forall|i: int, j: int| 0 <= i < j < shorter.len() implies {
                    &&& (#[trigger] shorter[i]).topic_uri != (#[trigger] shorter[j]).topic_uri
                    &&& shorter[i].topic_data != shorter[j].topic_data
                } by {
                    assert(shorter[i] == topics[i] && shorter[j] == topics[j]);
                }
            }
            if topics.last().topic_uri != topic_uri {
                assert forall|i: int, j: int| 0 <= i < j < out.len() implies {
                    &&& (#[trigger] out[i]).topic_uri != (#[trigger] out[j]).topic_uri
                    &&& out[i].topic_data != out[j].topic_data
                } by {
                    if j < rest.len() {
                        assert(out[i] == rest[i] && out[j] == rest[j]);
                    } else {
                        assert(out[i] == rest[i]);
                        assert(shorter.contains(rest[i]));
                        let m = choose|m: int| 0 <= m < shorter.len() && shorter[m] == rest[i];
                        assert(topics[m] == out[i]);
                        assert(topics[topics.len() - 1] == out[j]);
                    }
                }
            }
        }
    } else {
        assert(first_index(out, TopicKey::Uri, topic_uri) is None);
    }
}

impl TopicCollection {
    /// An empty collection under the given name.
    pub fn new(name: String) -> (collection: TopicCollection)
        ensures
            collection@ == (TopicCollectionView {
                name: name@,
                resource_type: collection_resource_type(),
                topics: Seq::empty(),
                data: Seq::empty(),
            }),
            collection@.well_formed(),
    {
        let collection = TopicCollection {
            name,
            resource_type: String::from_str("core.ps.coll"),
            topics: Vec::new(),
            data: Vec::new(),
        };
        proof {
            assert(collection@.topics =~= Seq::empty());
            assert(collection@.data =~= Seq::empty());
        }
        collection
    }

    /// The path segment of the collection.
    pub fn get_name(&self) -> (name: &str)
        ensures
            name@ == self@.name,
    {
        self.name.as_str()
    }

    /// The resource type.
    pub fn get_resource_type(&self) -> (resource_type: &str)
        ensures
            resource_type@ == self@.resource_type,
    {
        self.resource_type.as_str()
    }

    /// The topics, in the order in which they were added.
    pub fn get_topics(&self) -> (topics: &Vec<Topic>)
        ensures
            topic_views(topics@) == self@.topics,
    {
        &self.topics
    }

    /// Where the first topic stands whose field `key` holds `value`.
    fn position(&self, key: TopicKey, value: &str) -> (found: Option<usize>)
        ensures
            match found {
                Some(i) => i < self@.topics.len() && first_index(self@.topics, key, value@) == Some(
                    i as int,
                ),
                None => first_index(self@.topics, key, value@) is None,
            },
    {
        let mut i: usize = 0;
        while i < self.topics.len()
            invariant
                i <= self.topics.len(),
                forall|k: int| 0 <= k < i ==> (#[trigger] self@.topics[k]).key(key) != value@,
            decreases self.topics.len() - i,
        {
            let held = match key {
                TopicKey::Uri => self.topics[i].topic_uri.as_str(),
                TopicKey::DataUri => self.topics[i].topic_data.as_str(),
                TopicKey::Name => self.topics[i].topic_name.as_str(),
            };
            assert(held@ == self@.topics[i as int].key(key));
            if same_text(held, value) {
                proof {
                    lemma_first_index_is(self@.topics, key, value@, i as int);
                }
                return Some(i);
            }
            i = i + 1;
        }
        proof {
            lemma_first_index(self@.topics, key, value@);
        }
        None
    }

    /// Where the first data resource stands that is filed under `path`.
    fn data_position(&self, path: &str) -> (found: Option<usize>)
        ensures
            match found {
                Some(i) => i < self@.data.len() && data_index(self@.data, path@) == Some(i as int),
                None => data_index(self@.data, path@) is None,
            },
    {
        let mut i: usize = 0;
        while i < self.data.len()
            invariant
                i <= self.data.len(),
                forall|k: int| 0 <= k < i ==> (#[trigger] self@.data[k]).0 != path@,
            decreases self.data.len() - i,
        {
            assert(self.data@[i as int].path@ == self@.data[i as int].0);
            if same_text(self.data[i].path.as_str(), path) {
                proof {
                    lemma_data_index(self@.data, path@);
                }
                return Some(i);
            }
            i = i + 1;
        }
        proof {
            lemma_data_index(self@.data, path@);
        }
        None
    }

    /// True when a data resource is filed under `path`.
    pub fn has_data(&self, path: &str) -> (found: bool)
        ensures
            found == (data_index(self@.data, path@) is Some),
    {
        self.data_position(path).is_some()
    }

    /// The data resource filed under `path`; `has_data` tells whether
    /// there is one.
    pub fn get_data_from_path(&self, path: String) -> (resource: &DataResource)
        requires
            data_index(self@.data, path@) is Some,
        ensures
            resource@ == self@.data[data_index(self@.data, path@).unwrap()].1,
    {
        let at = self.data_position(path.as_str()).unwrap();
        &self.data[at].resource
    }

    /// The data resource filed under `path`, to be changed in place;
    /// `has_data` tells whether there is one.
    pub fn get_data_from_path_mut(&mut self, path: String) -> (resource: &mut DataResource)
        requires
            data_index(old(self)@.data, path@) is Some,
        ensures
            resource@ == old(self)@.data[data_index(old(self)@.data, path@).unwrap()].1,
            final(self)@ == (TopicCollectionView {
                data: old(self)@.data.update(
                    data_index(old(self)@.data, path@).unwrap(),
                    (path@, final(resource)@),
                ),
                ..old(self)@
            }),
    {
        let at = self.data_position(path.as_str()).unwrap();
        proof {
            lemma_data_index(self@.data, path@);
            assert forall|changed: DataResource| #[trigger]
                filed_views(
                    self.data@.update(
                        at as int,
                        FiledData { path: self.data@[at as int].path, resource: changed },
                    ),
                ) == filed_views(self.data@).update(at as int, (path@, changed@)) by {
                assert(filed_views(
                    self.data@.update(
                        at as int,
                        FiledData { path: self.data@[at as int].path, resource: changed },
                    ),
                ) =~= filed_views(self.data@).update(at as int, (path@, changed@)));
            }
        }
        &mut self.data[at].resource
    }

    /// The payload of the data resource filed under `path`; `has_data`
    /// tells whether there is one.
    pub fn get_data_value_from_path(&self, path: String) -> (value: String)
        requires
            data_index(self@.data, path@) is Some,
        ensures
            value@ == self@.data[data_index(self@.data, path@).unwrap()].1.data,
    {
        self.get_data_from_path(path).get_data().clone()
    }

    /// Replaces the path segment of the collection.
    pub fn set_name(&mut self, name: String)
        ensures
            final(self)@ == (TopicCollectionView { name: name@, ..old(self)@ }),
    {
        self.name = name;
    }

    /// Replaces the resource type.
    pub fn set_resource_type(&mut self, resource_type: String)
        ensures
            final(self)@ == (TopicCollectionView { resource_type: resource_type@, ..old(self)@ }),
    {
        self.resource_type = resource_type;
    }

    /// Replaces the topics by the given ones, in their order, each kept
    /// unless a topic kept before it holds its identifier or its data
    /// identifier.
    pub fn set_topics(&mut self, topics: Vec<Topic>)
        ensures
            final(self)@ == old(self)@.with_topics(kept_topics(topic_views(topics@))),
            distinct_uris(final(self)@.topics),
            (forall|i: int| 0 <= i < topics@.len() ==> (#[trigger] topics@[i])@.well_formed())
                ==> final(self)@.well_formed(),
    {
        let ghost given = topics@;
        let mut rest = topics;
        let mut reversed: Vec<Topic> = Vec::new();
        while rest.len() > 0
            invariant
                rest@.len() + reversed@.len() == given.len(),
                rest@ == given.take(rest@.len() as int),
                forall|j: int|
                    0 <= j < reversed@.len() ==> reversed@[j] == given[given.len() - 1 - j],
            decreases rest.len(),
        {
            let ghost before = rest@;
            let topic = rest.pop().unwrap();
            reversed.push(topic);
            proof {
                assert(rest@ =~= given.take(rest@.len() as int));
                assert(topic == given[before.len() - 1]);
            }
        }
        self.topics = Vec::new();
        let ghost done: int = 0;
        proof {
            assert(topic_views(given.take(0)) =~= Seq::<TopicView>::empty());
            assert(self@.topics =~= Seq::<TopicView>::empty());
            assert(self@.data =~= old(self)@.data);
        }
        while reversed.len() > 0
            invariant
                0 <= done,
                done + reversed@.len() == given.len(),
                forall|j: int|
                    0 <= j < reversed@.len() ==> reversed@[j] == given[given.len() - 1 - j],
                self@ == old(self)@.with_topics(kept_topics(topic_views(given.take(done)))),
                distinct_uris(self@.topics),
                (forall|i: int| 0 <= i < given.len() ==> (#[trigger] given[i])@.well_formed())
                    ==> self@.well_formed(),
            decreases reversed.len(),
        {
            let topic = reversed.pop().unwrap();
            proof {
                assert(topic == given[done]);
                assert(topic_views(given.take(done + 1)).drop_last() =~= topic_views(
                    given.take(done),
                ));
                assert(topic_views(given.take(done + 1)).last() == topic@);
            }
            match self.add_topic(topic) {
                Ok(_) => {},
                Err(_) => {},
            }
            proof {
                done = done + 1;
            }
        }
        proof {
            assert(given.take(done) =~= given);
        }
    }

    /// Files `data` under `path`, in the place of what was filed there.
    pub fn set_data(&mut self, path: String, data: DataResource)
        ensures
            final(self)@ == (TopicCollectionView {
                data: with_data(old(self)@.data, path@, data@),
                ..old(self)@
            }),
    {
        match self.data_position(path.as_str()) {
            Some(i) => {
                self.data[i] = FiledData { path, resource: data };
            },
            None => {
                self.data.push(FiledData { path, resource: data });
            },
        }
        proof {
            assert(final(self)@.data =~= with_data(old(self)@.data, path@, data@));
        }
    }

    /// Adds a topic, unless its identifier or its data identifier is held
    /// by a topic of the collection already.
    pub fn add_topic(&mut self, topic: Topic) -> (added: Result<(), BrokerError>)
        ensures
            match added {
                Ok(_) => {
                    &&& !old(self)@.has_topic(TopicKey::Uri, topic@.topic_uri)
                    &&& !old(self)@.has_topic(TopicKey::DataUri, topic@.topic_data)
                    &&& final(self)@ == old(self)@.with_topics(old(self)@.topics.push(topic@))
                },
                Err(error) => {
                    &&& error == BrokerError::Conflict
                    &&& (old(self)@.has_topic(TopicKey::Uri, topic@.topic_uri) || old(
                        self,
                    )@.has_topic(TopicKey::DataUri, topic@.topic_data))
                    &&& final(self)@ == old(self)@
                },
            },
            distinct_uris(old(self)@.topics) ==> distinct_uris(final(self)@.topics),
            old(self)@.well_formed() && topic@.well_formed() ==> final(self)@.well_formed(),
    {
        if self.position(TopicKey::Uri, topic.topic_uri.as_str()).is_some() {
            return Err(BrokerError::Conflict);
        }
        if self.position(TopicKey::DataUri, topic.topic_data.as_str()).is_some() {
            return Err(BrokerError::Conflict);
        }
        proof {
            lemma_first_index(self@.topics, TopicKey::Uri, topic@.topic_uri);
            lemma_first_index(self@.topics, TopicKey::DataUri, topic@.topic_data);
        }
        self.topics.push(topic);
        proof {
            assert(final(self)@.topics =~= old(self)@.topics.push(topic@));
            assert(final(self)@.data =~= old(self)@.data);
        }
        Ok(())
    }

    /// Removes the topic under `topic_uri`; nothing changes where there is
    /// none.
    pub fn remove_topic(&mut self, topic_uri: &str)
        ensures
            final(self)@ == old(self)@.with_topics(
                without_topic(old(self)@.topics, topic_uri@),
            ),
            old(self)@.well_formed() ==> final(self)@.well_formed(),
    {
        let ghost before = self.topics@;
        let ghost removed: int = 0;
        let mut i: usize = 0;
        proof {
            assert(topic_views(before.take(0)) =~= Seq::<TopicView>::empty());
            assert(self.topics@.skip(0) =~= before.skip(0));
        }
        while i < self.topics.len()
            invariant
                0 <= removed,
                i + removed <= before.len(),
                self.topics@.len() + removed == before.len(),
                topic_views(self.topics@.take(i as int)) == without_topic(
                    topic_views(before.take(i + removed)),
                    topic_uri@,
                ),
                self.topics@.skip(i as int) == before.skip(i + removed),
                self.name == old(self).name,
                self.resource_type == old(self).resource_type,
                self.data == old(self).data,
            decreases self.topics.len() - i,
        {
            let ghost current = self.topics@;
            proof {
                assert(current[i as int] == current.skip(i as int)[0]);
                assert(before[i + removed] == before.skip(i + removed)[0]);
                assert(topic_views(before.take(i + removed + 1)).drop_last() =~= topic_views(
                    before.take(i + removed),
                ));
                assert(topic_views(before.take(i + removed + 1)).last() == before[i + removed]@);
            }
            if same_text(self.topics[i].topic_uri.as_str(), topic_uri) {
                self.topics.remove(i);
                proof {
                    assert(self.topics@.take(i as int) =~= current.take(i as int));
                    assert(self.topics@.skip(i as int) =~= current.skip(i as int).skip(1));
                    assert(before.skip(i + removed + 1) =~= before.skip(i + removed).skip(1));
                    removed = removed + 1;
                }
            } else {
                proof {
                    assert(topic_views(current.take(i + 1)) =~= topic_views(
                        current.take(i as int),
                    ).push(current[i as int]@));
                    assert(current.skip(i + 1) =~= current.skip(i as int).skip(1));
                    assert(before.skip(i + removed + 1) =~= before.skip(i + removed).skip(1));
                }
                i = i + 1;
            }
        }
        proof {
            assert(self.topics@.take(i as int) =~= self.topics@);
            assert(before.take(i + removed) =~= before);
            lemma_without_topic(old(self)@.topics, topic_uri@);
            let out = final(self)@.topics;
            if old(self)@.well_formed() {
                assert forall|k: int| 0 <= k < out.len() implies (
                #[trigger] out[k]).well_formed() by {
                    assert(old(self)@.topics.contains(out[k]));
                }
            }
        }
    }

    /// The topic under the identifier `topic_uri`.
    pub fn find_topic_by_uri(&self, topic_uri: &str) -> (found: Option<&Topic>)
        ensures
            match found {
                Some(topic) => self@.has_topic(TopicKey::Uri, topic_uri@) && topic@ == self@.topic(
                    TopicKey::Uri,
                    topic_uri@,
                ),
                None => !self@.has_topic(TopicKey::Uri, topic_uri@),
            },
    {
        self.find(TopicKey::Uri, topic_uri)
    }

    /// The topic whose data is reached under `topic_data_uri`.
    pub fn find_topic_by_data_uri(&self, topic_data_uri: &str) -> (found: Option<&Topic>)
        ensures
            match found {
                Some(topic) => self@.has_topic(TopicKey::DataUri, topic_data_uri@) && topic@
                    == self@.topic(TopicKey::DataUri, topic_data_uri@),
                None => !self@.has_topic(TopicKey::DataUri, topic_data_uri@),
            },
    {
        self.find(TopicKey::DataUri, topic_data_uri)
    }

    /// The topic whose data is reached under `topic_data_uri`, to be
    /// changed in place.
    pub fn find_topic_by_data_uri_mut(&mut self, topic_data_uri: &str) -> (found: Option<
        &mut Topic,
    >)
        ensures
            match found {
                Some(topic) => {
                    &&& old(self)@.has_topic(TopicKey::DataUri, topic_data_uri@)
                    &&& topic@ == old(self)@.topic(TopicKey::DataUri, topic_data_uri@)
                    &&& final(self)@ == old(self)@.with_topics(
                        old(self)@.topics.update(
                            first_index(
                                old(self)@.topics,
                                TopicKey::DataUri,
                                topic_data_uri@,
                            ).unwrap(),
                            final(topic)@,
                        ),
                    )
                },
                None => !old(self)@.has_topic(TopicKey::DataUri, topic_data_uri@) && final(self)@
                    == old(self)@,
            },
    {
        self.find_mut(TopicKey::DataUri, topic_data_uri)
    }

    /// The topic under the identifier `topic_uri`, to be changed in place.
    pub fn find_topic_by_uri_mut(&mut self, topic_uri: &str) -> (found: Option<&mut Topic>)
        ensures
            match found {
                Some(topic) => {
                    &&& old(self)@.has_topic(TopicKey::Uri, topic_uri@)
                    &&& topic@ == old(self)@.topic(TopicKey::Uri, topic_uri@)
                    &&& final(self)@ == old(self)@.with_topics(
                        old(self)@.topics.update(
                            first_index(old(self)@.topics, TopicKey::Uri, topic_uri@).unwrap(),
                            final(topic)@,
                        ),
                    )
                },
                None => !old(self)@.has_topic(TopicKey::Uri, topic_uri@) && final(self)@ == old(
                    self,
                )@,
            },
    {
        self.find_mut(TopicKey::Uri, topic_uri)
    }

    /// The first topic labelled `topic_name`.
    pub fn find_topic_by_name(&self, topic_name: &str) -> (found: Option<&Topic>)
        ensures
            match found {
                Some(topic) => self@.has_topic(TopicKey::Name, topic_name@) && topic@
                    == self@.topic(TopicKey::Name, topic_name@),
                None => !self@.has_topic(TopicKey::Name, topic_name@),
            },
    {
        self.find(TopicKey::Name, topic_name)
    }

    /// The first topic labelled `topic_name`, to be changed in place.
    pub fn find_topic_by_name_mut(&mut self, topic_name: &str) -> (found: Option<&mut Topic>)
        ensures
            match found {
                Some(topic) => {
                    &&& old(self)@.has_topic(TopicKey::Name, topic_name@)
                    &&& topic@ == old(self)@.topic(TopicKey::Name, topic_name@)
                    &&& final(self)@ == old(self)@.with_topics(
                        old(self)@.topics.update(
                            first_index(old(self)@.topics, TopicKey::Name, topic_name@).unwrap(),
                            final(topic)@,
                        ),
                    )
                },
                None => !old(self)@.has_topic(TopicKey::Name, topic_name@) && final(self)@ == old(
                    self,
                )@,
            },
    {
        self.find_mut(TopicKey::Name, topic_name)
    }

    /// The first topic whose field `key` holds `value`.
    fn find(&self, key: TopicKey, value: &str) -> (found: Option<&Topic>)
        ensures
            match found {
                Some(topic) => self@.has_topic(key, value@) && topic@ == self@.topic(key, value@),
                None => !self@.has_topic(key, value@),
            },
    {
        match self.position(key, value) {
            Some(i) => Some(&self.topics[i]),
            None => None,
        }
    }

    /// The first topic whose field `key` holds `value`, to be changed in
    /// place.
    fn find_mut(&mut self, key: TopicKey, value: &str) -> (found: Option<&mut Topic>)
        ensures
            match found {
                Some(topic) => {
                    &&& old(self)@.has_topic(key, value@)
                    &&& topic@ == old(self)@.topic(key, value@)
                    &&& final(self)@ == old(self)@.with_topics(
                        old(self)@.topics.update(
                            first_index(old(self)@.topics, key, value@).unwrap(),
                            final(topic)@,
                        ),
                    )
                },
                None => !old(self)@.has_topic(key, value@) && final(self)@ == old(self)@,
            },
    {
        match self.position(key, value) {
            Some(i) => {
                proof {
                    assert forall|changed: Topic| #[trigger]
                        topic_views(self.topics@.update(i as int, changed)) == topic_views(
                            self.topics@,
                        ).update(i as int, changed@) by {
                        assert(topic_views(self.topics@.update(i as int, changed)) =~= topic_views(
                            self.topics@,
                        ).update(i as int, changed@));
                    }
                }
                Some(&mut self.topics[i])
            },
            None => None,
        }
    }

    /// Replaces the payload of the data resource filed under `path`;
    /// nothing changes where none is filed there.
    pub fn update_data_value(&mut self, path: String, value: String)
        ensures
            final(self)@ == (match data_index(old(self)@.data, path@) {
                Some(i) => TopicCollectionView {
                    data: old(self)@.data.update(
                        i,
                        (
                            old(self)@.data[i].0,
                            DataResourceView { data: value@, ..old(self)@.data[i].1 },
                        ),
                    ),
                    ..old(self)@
                },
                None => old(self)@,
            }),
    {
        match self.data_position(path.as_str()) {
            Some(i) => {
                self.data[i].resource.set_data(value);
                proof {
                    assert(final(self)@.data =~= old(self)@.data.update(
                        i as int,
                        (
                            old(self)@.data[i as int].0,
                            DataResourceView { data: value@, ..old(self)@.data[i as int].1 },
                        ),
                    ));
                }
            },
            None => {},
        }
    }
}

/// True exactly when `endpoint` occurs in `endpoints`.
pub fn contains_endpoint(endpoints: &Vec<Endpoint>, endpoint: Endpoint) -> (found: bool)
    ensures
        found == endpoints@.contains(endpoint),
{
    let mut i: usize = 0;
    while i < endpoints.len()
        invariant
            i <= endpoints.len(),
            forall|k: int| 0 <= k < i ==> endpoints@[k] != endpoint,
        decreases endpoints.len() - i,
    {
        if endpoints[i] == endpoint {
            return true;
        }
        i = i + 1;
    }
    false
}

/// Removing an endpoint leaves the others, in their order: what is left
/// holds an endpoint exactly when it was there and is not the one removed,
/// and holds nothing twice that was not there twice.
pub proof fn lemma_without_endpoint(endpoints: Seq<Endpoint>, endpoint: Endpoint)
    ensures
        !without_endpoint(endpoints, endpoint).contains(endpoint),
        forall|other: Endpoint|
            other != endpoint ==> (#[trigger] without_endpoint(endpoints, endpoint).contains(other)
                <==> endpoints.contains(other)),
        endpoints.no_duplicates() ==> without_endpoint(endpoints, endpoint).no_duplicates(),
        !endpoints.contains(endpoint) ==> without_endpoint(endpoints, endpoint) == endpoints,
    decreases endpoints.len(),
{
    if endpoints.len() > 0 {
        let shorter = endpoints.drop_last();
        let last = endpoints.last();
        lemma_without_endpoint(shorter, endpoint);
        let rest = without_endpoint(shorter, endpoint);
        let out = without_endpoint(endpoints, endpoint);
        assert(endpoints =~= shorter.push(last));
        assert forall|other: Endpoint| other != endpoint implies (#[trigger] out.contains(other)
            <==> endpoints.contains(other)) by {
            if out.contains(other) {
                let k = choose|k: int| 0 <= k < out.len() && out[k] == other;
                if k < rest.len() {
                    assert(rest.contains(other));
                    let j = choose|j: int| 0 <= j < shorter.len() && shorter[j] == other;
                    assert(endpoints[j] == other);
                } else {
                    assert(endpoints[endpoints.len() - 1] == other);
                }
            }
            if endpoints.contains(other) {
                let j = choose|j: int| 0 <= j < endpoints.len() && endpoints[j] == other;
                if j < shorter.len() {
                    assert(shorter[j] == other);
                    assert(rest.contains(other));
                    let k = choose|k: int| 0 <= k < rest.len() && rest[k] == other;
                    assert(out[k] == other);
                } else {
                    assert(out[out.len() - 1] == other);
                }
            }
        }
        if endpoints.no_duplicates() {
            assert(shorter.no_duplicates());
            if last != endpoint {
                assert(!rest.contains(last)) by {
                    if rest.contains(last) {
                        assert(shorter.contains(last));
                        let j = choose|j: int| 0 <= j < shorter.len() && shorter[j] == last;
                        assert(endpoints[j] == endpoints[endpoints.len() - 1]);
                    }
                }
            }
        }
        if !endpoints.contains(endpoint) {
            assert(!shorter.contains(endpoint)) by {
                if shorter.contains(endpoint) {
                    let j = choose|j: int| 0 <= j < shorter.len() && shorter[j] == endpoint;
                    assert(endpoints[j] == endpoint);
                }
            }
            assert(last != endpoint) by {
                assert(endpoints[endpoints.len() - 1] == last);
            }
        }
    }
}

} // verus!
