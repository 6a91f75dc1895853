[package]
name = "codex_chat_fallback"
version = "0.1.0"
edition = "2021"
publish = false

[dependencies]
http = "1"
serde = { version = "1", features = ["derive"] }
serde_json = "1"
tokio = { version = "1", default-features = false, features = ["sync", "rt", "time", "macros"] }
futures = "0.3"
eventsource-stream = "0.2"
tracing = "0.1"

[dev-dependencies]
