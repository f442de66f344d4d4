[package]
name = "crater"
version = "0.1.0"
edition = "2021"
publish = false

[dependencies]
base64 = "=0.22.1"
chrono = { version = "=0.4.45", default-features = false, features = ["clock"] }
crossbeam-utils = "=0.8.23"
log = "=0.4.34"
mime = "=0.3.17"
reqwest = { version = "=0.12.28", default-features = false, features = ["blocking", "json"] }
ring = "0.17"
rusqlite = { version = "=0.32.1", features = ["bundled"] }
serde = { version = "=1.0.229", features = ["derive"] }
serde_json = "=1.0.154"
