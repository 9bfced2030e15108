[package]
name = "bonzo_relay"
version = "0.1.0"
edition = "2021"
publish = false

[dependencies]
futures-channel = "0.3"
futures-util = { version = "0.3", features = ["sink"] }
log = "0.4"
serde_json = "1"
tokio = { version = "1", features = ["rt-multi-thread", "macros", "net", "fs", "io-util", "sync"] }
tokio-tungstenite = "0.20"
tungstenite = "0.20"
