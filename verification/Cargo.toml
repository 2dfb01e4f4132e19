[package]
name = "arena"
version = "0.1.0"
edition = "2021"
publish = false

[dependencies]
rand = "0.8"
tokio = { version = "1", features = ["full"] }
parking_lot = "0.12"
crossterm = "*"
poem = { version = "*", features = ["websocket"] }
futures-util = "0.3"
tokio-tungstenite = "*"
tracing-subscriber = "0.3"
url = "2"

[dev-dependencies]
serde_json = "1"
