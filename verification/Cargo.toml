[package]
name = "indexer"
version = "0.1.0"
edition = "2021"
publish = false

[dependencies]
rust_decimal = "1"
serde = { version = "1", features = ["derive"] }
serde_json = "1"
jiff = "0.2"
tokio = { version = "1", features = ["rt-multi-thread", "macros", "sync", "time", "net"] }
tokio-tungstenite = "0.26"
futures-util = "0.3"
etcd-client = "0.14"
reqwest = { version = "0.12", default-features = false, features = ["json"] }
tokio-postgres = "0.7"
