[package]
name = "pointeuse"
version = "0.1.0"
edition = "2021"
publish = false

[dependencies]
chrono = "0.4"
keyring = "3"
quick-xml = "0.37"
log = "0.4"
serde = { version = "1", features = ["derive"] }
serde_json = "1"
rusqlite = { version = "0.32", features = ["bundled"] }
reqwest = { version = "0.12", default-features = false, features = ["rustls-tls"] }
tokio = { version = "1", features = ["rt", "macros", "time", "sync"] }
png = "0.17"
