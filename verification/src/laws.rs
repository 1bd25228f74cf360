//! What holds of the broker's operations taken together.

use crate::endpoint::Endpoint;
use crate::message::{ContentFormat, NotificationView, ResponseView, Status};
use crate::model::{
    create, delete, fresh_pair, identifiers_scarce, notifications_for, payloads_for, publish,
    publish_all, read_latest, subscribe, subscribed_once, unsubscribe,
};
use crate::uri::{identifier, is_uri, lemma_identifier_has_rank, IDENTIFIER_COUNT};
use crate::resource::{
    first_index, lemma_first_index, lemma_first_index_is, lemma_without_endpoint,
    lemma_without_topic, with_endpoint, without_endpoint, without_topic, TopicCollectionView,
    TopicKey, TopicView,
};
use vstd::prelude::*;
use vstd::utf8::*;

verus! {

/// Looking a value up finds the same place after a topic was replaced by
/// one that holds the same value under the key.
pub proof fn lemma_lookup_after_update(
    topics: Seq<TopicView>,
    at: int,
    topic: TopicView,
    key: TopicKey,
    value: Seq<char>,
)
    requires
        0 <= at < topics.len(),
        topic.key(key) == topics[at].key(key),
    ensures
        first_index(topics.update(at, topic), key, value) == first_index(topics, key, value),
{
    let after = topics.update(at, topic);
    lemma_first_index(topics, key, value);
    lemma_first_index(after, key, value);
    assert forall|k: int| 0 <= k < topics.len() implies (#[trigger] after[k]).key(key)
        == topics[k].key(key) by {}
    match first_index(topics, key, value) {
        Some(i) => {
            assert(after[i].key(key) == value);
            assert forall|k: int| 0 <= k < i implies (#[trigger] after[k]).key(key) != value by {
                assert(topics[k].key(key) != value);
            }
            lemma_first_index_is(after, key, value, i);
        },
        None => {
            if first_index(after, key, value) is Some {
                let j = first_index(after, key, value).unwrap();
                assert(topics[j].key(key) == value);
            }
        },
    }
}

/// After a topic was created under identifiers that were free, exactly one
/// topic is reached under its identifier: the new one, half created and
/// without subscribers; no other topic holds either identifier, as its own
/// or as that of its data; and the topics from before are as they were.
pub proof fn law_create(
    state: TopicCollectionView,
    topic_name: Seq<char>,
    resource_type: Seq<char>,
    topic_uri: Seq<char>,
    data_uri: Seq<char>,
)
    requires
        fresh_pair(state, topic_uri, data_uri),
    ensures
        ({
            let after = create(state, topic_name, resource_type, topic_uri, data_uri).state;
            let last = state.topics.len() as int;
            &&& after.topics.len() == last + 1
            &&& first_index(after.topics, TopicKey::Uri, topic_uri) == Some(last)
            &&& first_index(after.topics, TopicKey::DataUri, data_uri) == Some(last)
            &&& after.topics[last].half_created
            &&& after.topics[last].topic_name == topic_name
            &&& after.topics[last].data_resource.subscribers.len() == 0
            &&& forall|k: int|
                0 <= k < last ==> {
                    &&& #[trigger] after.topics[k] == state.topics[k]
                    &&& after.topics[k].topic_uri != topic_uri
                    &&& after.topics[k].topic_uri != data_uri
                    &&& after.topics[k].topic_data != topic_uri
                    &&& after.topics[k].topic_data != data_uri
                }
            &&& state.well_formed() ==> after.well_formed()
        }),
{
    let after = create(state, topic_name, resource_type, topic_uri, data_uri).state;
    let last = state.topics.len() as int;
    lemma_first_index(state.topics, TopicKey::Uri, topic_uri);
    lemma_first_index(state.topics, TopicKey::Uri, data_uri);
    lemma_first_index(state.topics, TopicKey::DataUri, topic_uri);
    lemma_first_index(state.topics, TopicKey::DataUri, data_uri);
    assert forall|k: int| 0 <= k < last implies {
        &&& #[trigger] after.topics[k] == state.topics[k]
        &&& after.topics[k].topic_uri != topic_uri
        &&& after.topics[k].topic_uri != data_uri
        &&& after.topics[k].topic_data != topic_uri
        &&& after.topics[k].topic_data != data_uri
    } by {
        assert(state.topics[k].key(TopicKey::Uri) != topic_uri);
        assert(state.topics[k].key(TopicKey::Uri) != data_uri);
        assert(state.topics[k].key(TopicKey::DataUri) != topic_uri);
        assert(state.topics[k].key(TopicKey::DataUri) != data_uri);
    }
    assert forall|k: int| 0 <= k < last implies (#[trigger] after.topics[k]).key(TopicKey::Uri)
        != topic_uri by {
        assert(after.topics[k] == state.topics[k]);
    }
    lemma_first_index_is(after.topics, TopicKey::Uri, topic_uri, last);
    assert forall|k: int| 0 <= k < last implies (#[trigger] after.topics[k]).key(
        TopicKey::DataUri,
    ) != data_uri by {
        assert(after.topics[k] == state.topics[k]);
    }
    lemma_first_index_is(after.topics, TopicKey::DataUri, data_uri, last);
    if state.well_formed() {
        assert forall|i: int| 0 <= i < after.topics.len() implies (
        #[trigger] after.topics[i]).well_formed() by {
            if i < last {
                assert(after.topics[i] == state.topics[i]);
            }
        }
        assert forall|i: int, j: int| 0 <= i < j < after.topics.len() implies {
            &&& (#[trigger] after.topics[i]).topic_uri != (#[trigger] after.topics[j]).topic_uri
            &&& after.topics[i].topic_data != after.topics[j].topic_data
        } by {
            assert(after.topics[i] == state.topics[i]);
            if j < last {
                assert(after.topics[j] == state.topics[j]);
            }
        }
    }
}

/// A creation is refused only where the identifiers are used up: of any
/// two different identifiers, one is taken.
pub proof fn law_refusal_means_used_up(
    state: TopicCollectionView,
    topic_uri: Seq<char>,
    data_uri: Seq<char>,
)
    requires
        identifiers_scarce(state),
        is_uri(topic_uri),
        is_uri(data_uri),
        topic_uri != data_uri,
    ensures
        !fresh_pair(state, topic_uri, data_uri),
{
    lemma_identifier_has_rank(topic_uri);
    lemma_identifier_has_rank(data_uri);
    let a = choose|rank: nat| rank < IDENTIFIER_COUNT && #[trigger] identifier(rank) == topic_uri;
    let b = choose|rank: nat| rank < IDENTIFIER_COUNT && #[trigger] identifier(rank) == data_uri;
    assert(identifier(a) != identifier(b));
}

/// After a deletion no topic is reached under the deleted identifier, and
/// every topic that is left was there before under another identifier.
/// Where identifiers were not shared, the data of the deleted topic is not
/// reached either: a publish under its data identifier finds nothing and
/// notifies nobody, and neither a read nor a subscription is served.
pub proof fn law_delete(state: TopicCollectionView, topic_uri: Seq<char>)
    ensures
        ({
            let after = delete(state, topic_uri).state;
            &&& !after.has_topic(TopicKey::Uri, topic_uri)
            &&& forall|k: int|
                0 <= k < after.topics.len() ==> state.topics.contains(#[trigger] after.topics[k])
                    && after.topics[k].topic_uri != topic_uri
            &&& state.well_formed() ==> after.well_formed()
            &&& state.well_formed() && state.has_topic(TopicKey::Uri, topic_uri) ==> {
                let data_uri = state.topic(TopicKey::Uri, topic_uri).topic_data;
                &&& !after.has_topic(TopicKey::DataUri, data_uri)
                &&& forall|payload: Seq<u8>| #[trigger]
                    publish(after, data_uri, payload).notifications.len() == 0
                &&& read_latest(after, data_uri).status == Status::NotFound
                &&& forall|subscriber: Endpoint| #[trigger]
                    subscribe(after, data_uri, subscriber).state == after
            }
        }),
{
    let after = delete(state, topic_uri).state;
    lemma_without_topic(state.topics, topic_uri);
    lemma_first_index(after.topics, TopicKey::Uri, topic_uri);
    assert forall|k: int| 0 <= k < after.topics.len() implies (#[trigger] after.topics[k]).topic_uri
        != topic_uri by {
        assert(after.topics[k].key(TopicKey::Uri) != topic_uri);
    }
    if state.well_formed() {
        assert forall|k: int| 0 <= k < after.topics.len() implies (
        #[trigger] after.topics[k]).well_formed() by {
            assert(state.topics.contains(after.topics[k]));
        }
        if state.has_topic(TopicKey::Uri, topic_uri) {
            lemma_first_index(state.topics, TopicKey::Uri, topic_uri);
            let at = first_index(state.topics, TopicKey::Uri, topic_uri).unwrap();
            let data_uri = state.topics[at].topic_data;
            lemma_first_index(after.topics, TopicKey::DataUri, data_uri);
            if first_index(after.topics, TopicKey::DataUri, data_uri) is Some {
                let k = first_index(after.topics, TopicKey::DataUri, data_uri).unwrap();
                assert(state.topics.contains(after.topics[k]));
                let j = choose|j: int| 0 <= j < state.topics.len() && state.topics[j]
                    == after.topics[k];
                assert(state.topics[j].topic_uri != topic_uri);
                assert(j != at);
                assert(state.topics[j].topic_data == state.topics[at].topic_data);
                if j < at {
                    assert(state.topics[j].topic_data != state.topics[at].topic_data);
                } else {
                    assert(state.topics[at].topic_data != state.topics[j].topic_data);
                }
            }
        }
    }
}

/// A deletion leaves the other topics to be found as before: what a
/// lookup found before under another identifier than the deleted one, it
/// finds afterwards, and what it did not find before, it does not find
/// afterwards.
pub proof fn law_delete_keeps_others(
    topics: Seq<TopicView>,
    topic_uri: Seq<char>,
    key: TopicKey,
    value: Seq<char>,
)
    ensures
        match first_index(topics, key, value) {
            Some(at) => topics[at].topic_uri != topic_uri ==> {
                &&& first_index(without_topic(topics, topic_uri), key, value) is Some
                &&& without_topic(topics, topic_uri)[first_index(
                    without_topic(topics, topic_uri),
                    key,
                    value,
                ).unwrap()] == topics[at]
            },
            None => first_index(without_topic(topics, topic_uri), key, value) is None,
        },
    decreases topics.len(),
{
    if topics.len() > 0 {
        let shorter = topics.drop_last();
        let rest = without_topic(shorter, topic_uri);
        law_delete_keeps_others(shorter, topic_uri, key, value);
        lemma_first_index(shorter, key, value);
        lemma_first_index(rest, key, value);
        lemma_first_index(topics, key, value);
        let out = without_topic(topics, topic_uri);
        lemma_first_index(out, key, value);
        if topics.last().topic_uri != topic_uri {
            assert(out.drop_last() =~= rest);
            assert(out.last() == topics.last());
        }
        match first_index(shorter, key, value) {
            Some(at) => {
                assert(first_index(topics, key, value) == Some(at));
                assert(topics[at] == shorter[at]);
            },
            None => {
                lemma_without_topic(shorter, topic_uri);
                if first_index(rest, key, value) is Some {
                    let k = first_index(rest, key, value).unwrap();
                    assert(shorter.contains(rest[k]));
                    let j = choose|j: int| 0 <= j < shorter.len() && shorter[j] == rest[k];
                    assert(shorter[j].key(key) == value);
                }
            },
        }
    }
}

/// A subscription followed by an unsubscription of the same endpoint leaves
/// the collection as it was, for an endpoint that was not subscribed
/// before.
pub proof fn law_subscribe_then_unsubscribe(
    state: TopicCollectionView,
    data_uri: Seq<char>,
    subscriber: Endpoint,
)
    requires
        state.has_topic(TopicKey::DataUri, data_uri) ==> !state.topic(
            TopicKey::DataUri,
            data_uri,
        ).data_resource.subscribers.contains(subscriber),
    ensures
        unsubscribe(subscribe(state, data_uri, subscriber).state, data_uri, subscriber).state
            == state,
{
    lemma_first_index(state.topics, TopicKey::DataUri, data_uri);
    match first_index(state.topics, TopicKey::DataUri, data_uri) {
        None => {},
        Some(at) => {
            let topic = state.topics[at];
            let subscribers = topic.data_resource.subscribers;
            if !topic.half_created {
                let joined = with_endpoint(subscribers, subscriber);
                let middle = subscribe(state, data_uri, subscriber).state;
                lemma_lookup_after_update(
                    state.topics,
                    at,
                    topic.with_subscribers(joined),
                    TopicKey::DataUri,
                    data_uri,
                );
                assert(joined == subscribers.push(subscriber));
                assert(joined[joined.len() - 1] == subscriber);
                assert(joined.contains(subscriber));
                assert(joined.drop_last() =~= subscribers);
                lemma_without_endpoint(subscribers, subscriber);
                assert(without_endpoint(joined, subscriber) == subscribers);
                let after = unsubscribe(middle, data_uri, subscriber).state;
                assert(middle.topics[at].with_subscribers(subscribers) == topic);
                assert(after.topics =~= state.topics);
            }
        },
    }
}

/// A second subscription of the same endpoint changes nothing and is
/// answered as the first was.
pub proof fn law_subscribe_twice(
    state: TopicCollectionView,
    data_uri: Seq<char>,
    subscriber: Endpoint,
)
    ensures
        subscribe(subscribe(state, data_uri, subscriber).state, data_uri, subscriber) == subscribe(
            state,
            data_uri,
            subscriber,
        ),
{
    lemma_first_index(state.topics, TopicKey::DataUri, data_uri);
    match first_index(state.topics, TopicKey::DataUri, data_uri) {
        None => {},
        Some(at) => {
            let topic = state.topics[at];
            let subscribers = topic.data_resource.subscribers;
            if !topic.half_created {
                let joined = with_endpoint(subscribers, subscriber);
                let middle = subscribe(state, data_uri, subscriber).state;
                lemma_lookup_after_update(
                    state.topics,
                    at,
                    topic.with_subscribers(joined),
                    TopicKey::DataUri,
                    data_uri,
                );
                if !subscribers.contains(subscriber) {
                    assert(joined[joined.len() - 1] == subscriber);
                }
                assert(joined.contains(subscriber));
                assert(with_endpoint(joined, subscriber) == joined);
                let again = subscribe(middle, data_uri, subscriber);
                assert(again.state.topics =~= middle.topics);
            }
        },
    }
}

/// A topic that is fully created stays so: no subscription, no
/// unsubscription and no publish makes it half created again, and a
/// publish that is accepted fully creates the topic it reaches.
pub proof fn law_creation_is_completed_once(
    state: TopicCollectionView,
    data_uri: Seq<char>,
    subscriber: Endpoint,
    payload: Seq<u8>,
    at: int,
)
    requires
        0 <= at < state.topics.len(),
    ensures
        subscribe(state, data_uri, subscriber).state.topics[at].half_created
            == state.topics[at].half_created,
        unsubscribe(state, data_uri, subscriber).state.topics[at].half_created
            == state.topics[at].half_created,
        !state.topics[at].half_created ==> !publish(
            state,
            data_uri,
            payload,
        ).state.topics[at].half_created,
        valid_utf8(payload) && first_index(state.topics, TopicKey::DataUri, data_uri) == Some(at)
            ==> !publish(state, data_uri, payload).state.topics[at].half_created,
{
    lemma_first_index(state.topics, TopicKey::DataUri, data_uri);
}

/// Reading after a publish that was accepted returns the published bytes
/// as they were.
pub proof fn law_read_after_publish(
    state: TopicCollectionView,
    data_uri: Seq<char>,
    payload: Seq<u8>,
)
    requires
        publish(state, data_uri, payload).response.status == Status::Created || publish(
            state,
            data_uri,
            payload,
        ).response.status == Status::Changed,
    ensures
        read_latest(publish(state, data_uri, payload).state, data_uri) == (ResponseView {
            status: Status::Content,
            payload,
            content_format: Some(ContentFormat::Json),
            observe: None,
        }),
{
    lemma_first_index(state.topics, TopicKey::DataUri, data_uri);
    assert(valid_utf8(payload));
    decode_utf8_encode_utf8(payload);
    let at = first_index(state.topics, TopicKey::DataUri, data_uri).unwrap();
    lemma_lookup_after_update(
        state.topics,
        at,
        state.topics[at].published(decode_utf8(payload)),
        TopicKey::DataUri,
        data_uri,
    );
}

/// The notifications of one publish hold, for a subscriber that is
/// subscribed once, exactly one message for it: the payload.
pub proof fn lemma_one_notification(
    subscribers: Seq<Endpoint>,
    payload: Seq<u8>,
    recipient: Endpoint,
)
    requires
        subscribers.no_duplicates(),
    ensures
        payloads_for(notifications_for(subscribers, payload), recipient) == if subscribers.contains(
            recipient,
        ) {
            seq![payload]
        } else {
            Seq::<Seq<u8>>::empty()
        },
    decreases subscribers.len(),
{
    let all = notifications_for(subscribers, payload);
    if subscribers.len() > 0 {
        let shorter = subscribers.drop_last();
        lemma_one_notification(shorter, payload, recipient);
        assert(all.drop_last() =~= notifications_for(shorter, payload));
        assert(subscribers[subscribers.len() - 1] == subscribers.last());
        if subscribers.last() == recipient {
            assert(!shorter.contains(recipient)) by {
                if shorter.contains(recipient) {
                    let j = choose|j: int| 0 <= j < shorter.len() && shorter[j] == recipient;
                    assert(subscribers[j] == subscribers[subscribers.len() - 1]);
                }
            }
            assert(subscribers.contains(recipient));
            assert(Seq::<Seq<u8>>::empty().push(payload) =~= seq![payload]);
        } else {
            if shorter.contains(recipient) {
                let j = choose|j: int| 0 <= j < shorter.len() && shorter[j] == recipient;
                assert(subscribers[j] == recipient);
            }
            if subscribers.contains(recipient) {
                let j = choose|j: int| 0 <= j < subscribers.len() && subscribers[j] == recipient;
                assert(shorter[j] == recipient);
            }
        }
    }
}

/// The messages for a recipient among two runs of notifications are those
/// of the first run followed by those of the second.
pub proof fn lemma_payloads_for_concat(
    first: Seq<NotificationView>,
    second: Seq<NotificationView>,
    recipient: Endpoint,
)
    ensures
        payloads_for(first + second, recipient) == payloads_for(first, recipient) + payloads_for(
            second,
            recipient,
        ),
    decreases second.len(),
{
    if second.len() == 0 {
        assert(first + second =~= first);
        assert(payloads_for(first, recipient) + payloads_for(second, recipient) =~= payloads_for(
            first,
            recipient,
        ));
    } else {
        lemma_payloads_for_concat(first, second.drop_last(), recipient);
        assert((first + second).drop_last() =~= first + second.drop_last());
        assert((first + second).last() == second.last());
        if second.last().recipient == recipient {
            assert(payloads_for(first, recipient) + payloads_for(second, recipient) =~= (
            payloads_for(first, recipient) + payloads_for(second.drop_last(), recipient)).push(
                second.last().message.payload,
            ));
        }
    }
}

/// Of a run of publishes under one data identifier, an endpoint that is
/// subscribed there is due one notification for each publish, with the
/// payloads as they were published and in the order of the publishes. The
/// payloads are UTF-8, the topic is there, and no endpoint is subscribed
/// to it twice.
pub proof fn law_notifications_in_order(
    state: TopicCollectionView,
    data_uri: Seq<char>,
    payloads: Seq<Seq<u8>>,
    subscriber: Endpoint,
)
    requires
        subscribed_once(state, data_uri, subscriber),
        forall|k: int| 0 <= k < payloads.len() ==> valid_utf8(#[trigger] payloads[k]),
    ensures
        payloads_for(publish_all(state, data_uri, payloads).notifications, subscriber) == payloads,
        publish_all(state, data_uri, payloads).state.has_topic(TopicKey::DataUri, data_uri),
        publish_all(state, data_uri, payloads).state.topic(
            TopicKey::DataUri,
            data_uri,
        ).data_resource.subscribers == state.topic(
            TopicKey::DataUri,
            data_uri,
        ).data_resource.subscribers,
    decreases payloads.len(),
{
    if payloads.len() == 0 {
        assert(payloads =~= Seq::<Seq<u8>>::empty());
    } else {
        let shorter = payloads.drop_last();
        assert forall|k: int| 0 <= k < shorter.len() implies valid_utf8(#[trigger] shorter[k]) by {
            assert(shorter[k] == payloads[k]);
        }
        law_notifications_in_order(state, data_uri, shorter, subscriber);
        let before = publish_all(state, data_uri, shorter).state;
        let notified = publish_all(state, data_uri, shorter).notifications;
        let payload = payloads.last();
        assert(valid_utf8(payload)) by {
            assert(payloads[payloads.len() - 1] == payload);
        }
        lemma_first_index(before.topics, TopicKey::DataUri, data_uri);
        let at = first_index(before.topics, TopicKey::DataUri, data_uri).unwrap();
        let outcome = publish(before, data_uri, payload);
        lemma_lookup_after_update(
            before.topics,
            at,
            before.topics[at].published(decode_utf8(payload)),
            TopicKey::DataUri,
            data_uri,
        );
        lemma_one_notification(before.topics[at].data_resource.subscribers, payload, subscriber);
        lemma_payloads_for_concat(notified, outcome.notifications, subscriber);
        assert(shorter.push(payload) =~= payloads);
        assert(shorter + seq![payload] =~= payloads);
    }
}

} // verus!
