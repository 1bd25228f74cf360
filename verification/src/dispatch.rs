//! The request dispatcher: from the method, the path and the Observe
//! option of a request to the handler that serves it.

use crate::error::BrokerError;
use crate::message::{Method, Observe, OBSERVE_SUBSCRIBE, OBSERVE_TERMINAL};
use crate::text::same_text;
use vstd::prelude::*;
use vstd::string::*;

verus! {

/// The handler that a request is routed to.
#[derive(Clone, Copy, Debug, PartialEq, Eq, Structural)]
pub enum Route {
    /// `GET discovery`: the list of all topics.
    TopicListing,
    /// `GET .well-known/core?rt=core.ps`: where the broker is.
    BrokerDiscovery,
    /// `GET .well-known/core?rt=core.ps.coll`: the topic collection.
    CollectionDiscovery,
    /// `GET .well-known/core?rt=core.ps.conf`: the topic configurations.
    ConfigurationDiscovery,
    /// `GET .well-known/core?rt=core.ps.data`: the data resources.
    DataDiscovery,
    /// `GET ps/data/<data_uri>` with Observe 0.
    Subscribe,
    /// `GET ps/data/<data_uri>` with Observe 1.
    Unsubscribe,
    /// `GET ps/data/<data_uri>` without Observe.
    ReadLatest,
    /// `POST` to a path of one component.
    CreateTopic,
    /// `PUT ps/data/<data_uri>`.
    Publish,
    /// `DELETE <topic_uri>` or `DELETE ps/<topic_uri>`.
    DeleteTopic,
}

/// True when the components are `ps`, `data` and one more.
pub open spec fn is_data_path(components: Seq<Seq<char>>) -> bool {
    components.len() == 3 && components[0] == "ps"@ && components[1] == "data"@
}

/// True when the components are `.well-known` and `query`.
pub open spec fn is_well_known(components: Seq<Seq<char>>, query: Seq<char>) -> bool {
    components.len() == 2 && components[0] == ".well-known"@ && components[1] == query
}

/// The handler for a `GET` on the given components. A path that no
/// handler serves is not found, and so is the data of a topic where the
/// Observe option holds neither 0 nor 1.
pub open spec fn get_route(components: Seq<Seq<char>>, observe: Observe) -> Result<
    Route,
    BrokerError,
> {
    if components.len() == 1 && components[0] == "discovery"@ {
        Ok(Route::TopicListing)
    } else if is_well_known(components, "core?rt=core.ps"@) {
        Ok(Route::BrokerDiscovery)
    } else if is_data_path(components) {
        match observe {
            Observe::Absent => Ok(Route::ReadLatest),
            Observe::Value(value) => if value == OBSERVE_SUBSCRIBE {
                Ok(Route::Subscribe)
            } else if value == OBSERVE_TERMINAL {
                Ok(Route::Unsubscribe)
            } else {
                Err(BrokerError::NotFound)
            },
            Observe::Malformed => Err(BrokerError::NotFound),
        }
    } else if is_well_known(components, "core?rt=core.ps.conf"@) {
        Ok(Route::ConfigurationDiscovery)
    } else if is_well_known(components, "core?rt=core.ps.data"@) {
        Ok(Route::DataDiscovery)
    } else if is_well_known(components, "core?rt=core.ps.coll"@) {
        Ok(Route::CollectionDiscovery)
    } else {
        Err(BrokerError::NotFound)
    }
}

/// The handler for a request with the given method, path components and
/// Observe option. A `PUT` on fewer than three components is a bad request;
/// any other request that no handler serves is not found.
pub open spec fn route_of(method: Method, components: Seq<Seq<char>>, observe: Observe) -> Result<
    Route,
    BrokerError,
> {
    match method {
        Method::Get => get_route(components, observe),
        Method::Post => if components.len() == 1 {
            Ok(Route::CreateTopic)
        } else {
            Err(BrokerError::NotFound)
        },
        Method::Put => if components.len() < 3 {
            Err(BrokerError::BadRequest)
        } else if is_data_path(components) {
            Ok(Route::Publish)
        } else {
            Err(BrokerError::NotFound)
        },
        Method::Delete => if components.len() == 1 || (components.len() == 2 && components[0]
            == "ps"@) {
            Ok(Route::DeleteTopic)
        } else {
            Err(BrokerError::NotFound)
        },
        Method::Other => Err(BrokerError::NotFound),
    }
}

/// True when the components are `ps`, `data` and one more.
fn data_path(components: &Vec<String>) -> (matches: bool)
    ensures
        matches == is_data_path(components.deep_view()),
{
    components.len() == 3 && same_text(components[0].as_str(), "ps") && same_text(
        components[1].as_str(),
        "data",
    )
}

/// True when the components are `.well-known` and `query`.
fn well_known(components: &Vec<String>, query: &str) -> (matches: bool)
    ensures
        matches == is_well_known(components.deep_view(), query@),
{
    components.len() == 2 && same_text(components[0].as_str(), ".well-known") && same_text(
        components[1].as_str(),
        query,
    )
}

/// Finds the handler for a request from its method, the components of its
/// path and its Observe option.
pub fn classify(method: Method, components: &Vec<String>, observe: Observe) -> (route: Result<
    Route,
    BrokerError,
>)
    ensures
        route == route_of(method, components.deep_view(), observe),
{
    match method {
        Method::Get => {
            if components.len() == 1 && same_text(components[0].as_str(), "discovery") {
                Ok(Route::TopicListing)
            } else if well_known(components, "core?rt=core.ps") {
                Ok(Route::BrokerDiscovery)
            } else if data_path(components) {
                match observe {
                    Observe::Absent => Ok(Route::ReadLatest),
                    Observe::Value(value) => {
                        if value == OBSERVE_SUBSCRIBE {
                            Ok(Route::Subscribe)
                        } else if value == OBSERVE_TERMINAL {
                            Ok(Route::Unsubscribe)
                        } else {
                            Err(BrokerError::NotFound)
                        }
                    },
                    Observe::Malformed => Err(BrokerError::NotFound),
                }
            } else if well_known(components, "core?rt=core.ps.conf") {
                Ok(Route::ConfigurationDiscovery)
            } else if well_known(components, "core?rt=core.ps.data") {
                Ok(Route::DataDiscovery)
            } else if well_known(components, "core?rt=core.ps.coll") {
                Ok(Route::CollectionDiscovery)
            } else {
                Err(BrokerError::NotFound)
            }
        },
        Method::Post => {
            if components.len() == 1 {
                Ok(Route::CreateTopic)
            } else {
                Err(BrokerError::NotFound)
            }
        },
        Method::Put => {
            if components.len() < 3 {
                Err(BrokerError::BadRequest)
            } else if data_path(components) {
                Ok(Route::Publish)
            } else {
                Err(BrokerError::NotFound)
            }
        },
        Method::Delete => {
            if components.len() == 1 || (components.len() == 2 && same_text(
                components[0].as_str(),
                "ps",
            )) {
                Ok(Route::DeleteTopic)
            } else {
                Err(BrokerError::NotFound)
            }
        },
        Method::Other => Err(BrokerError::NotFound),
    }
}

} // verus!
