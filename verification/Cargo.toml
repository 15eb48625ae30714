[package]
name = "my_quick_feed"
version = "0.1.0"
edition = "2021"
publish = false

[dependencies]
chrono = "0.4"
quick-xml = "0.37"
serde = { version = "1", features = ["derive"] }
serde_json = "1"
serde_yaml = "0.9"
parking_lot = "0.12"
tokio = { version = "1", features = ["rt-multi-thread", "macros", "time", "process", "sync"] }
reqwest = { version = "0.12", default-features = false, features = ["json", "rustls-tls"] }
rusqlite = { version = "0.32", features = ["bundled"] }
tracing = "0.1"
tracing-subscriber = { version = "0.3", features = ["env-filter"] }
