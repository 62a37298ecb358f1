[package]
name = "diskpulse"
version = "0.9.1"
edition = "2021"
publish = false

[dependencies]
serde = { version = "1", features = ["derive"] }
serde_json = "1"
sha2 = "0.10"
jwalk = "*"
rayon = "1"
rusqlite = { version = "*", features = ["bundled"] }
tokio = { version = "1", features = ["rt", "net", "time", "sync", "macros"] }
tokio-tungstenite = "*"
futures-util = "0.3"
mdns-sd = "*"
trash = "*"
