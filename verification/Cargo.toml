[package]
name = "coap_pubsub"
version = "0.1.0"
edition = "2021"
publish = false

[dependencies]
coap = "*"
coap-lite = "*"
lazy_static = "1"
rand = "0.8"
serde_json = "1"
socket2 = "*"
tokio = { version = "1", features = ["full"] }
