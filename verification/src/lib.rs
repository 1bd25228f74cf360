//! A CoAP publish-subscribe broker core: the topic registry, the request
//! dispatcher, the handlers behind it and the subscription fan-out, with
//! every operation stated over a mathematical model and proved against it.

pub mod broker;
pub mod client;
pub mod dispatch;
pub mod endpoint;
pub mod error;
pub mod json;
pub mod laws;
pub mod link_format;
pub mod message;
pub mod model;
pub mod resource;
pub mod text;
pub mod uri;
