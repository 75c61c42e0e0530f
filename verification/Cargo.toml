[package]
name = "win_event_log"
version = "0.1.0"
edition = "2021"
publish = false

[dependencies]
chrono = { version = "=0.4.45", features = ["serde"] }
serde = { version = "=1.0.229", features = ["derive"] }
serde_json = "=1.0.151"
quick-xml = { version = "=0.42.0", features = ["serialize"] }
