[package]
name = "rqlite"
version = "0.1.0"
edition = "2021"
publish = false

[dependencies]
serde_json = "1"
base64 = "0.13"
hyper = { version = "0.14", features = ["client", "http1"] }
tokio = { version = "1", features = ["net", "rt"] }
tokio-native-tls = "0.3"
bytes = "1"
