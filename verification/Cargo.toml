[package]
name = "eggs"
version = "0.1.0"
edition = "2021"
publish = false

[dependencies]
serde = { version = "1", features = ["derive"] }
serde_json = "1"
sha2 = "0.10"
url = "2"
uuid = { version = "1", features = ["v4"] }
dirs = "5"
tokio = { version = "1", features = ["rt", "rt-multi-thread", "time", "net", "io-util", "macros", "sync"] }
reqwest = { version = "0.12", default-features = false, features = ["json", "multipart"] }
tokio-tungstenite = "0.24"
futures-util = "0.3"
