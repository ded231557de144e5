[package]
name = "reqwest-eventsource"
version = "0.6.0"
edition = "2021"
publish = false

[dependencies]
base64 = "0.21"
eventsource-stream = "0.2"
futures-core = "0.3"
futures-timer = "3"
futures-util = "0.3"
nom = "7"
pin-project-lite = "0.2"
reqwest = { version = "0.12", default-features = false, features = ["stream"] }
serde_json = "1"
