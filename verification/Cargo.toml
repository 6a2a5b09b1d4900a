[package]
name = "exchange_feed"
version = "0.1.0"
edition = "2021"
publish = false

[dependencies]
dashmap = "5.5"
url = "2"
tokio = { version = "1", features = ["rt-multi-thread", "macros", "sync", "time", "net"] }
tokio-tungstenite = { version = "0.20", features = ["rustls-tls-webpki-roots"] }
futures-util = "0.3"
futures = "0.3"
serde = { version = "1", features = ["derive"] }
serde_json = "1"
reqwest = { version = "0.11", default-features = false, features = ["json", "rustls-tls"] }
parking_lot = "0.12"
tracing = "0.1"
chrono = "0.4"
