[package]
name = "aura"
version = "0.1.0"
edition = "2021"
publish = false

[dependencies]
serde = { version = "1", features = ["derive"] }
serde_json = "1"
tokio = { version = "1", features = ["full"] }
axum = "0.7"
tower-http = { version = "0.5", features = ["cors"] }
reqwest = { version = "0.11", default-features = false, features = ["json"] }
evdev = { version = "0.12", features = ["tokio"] }
futures-util = "0.3"
tracing = "0.1"
tracing-subscriber = "0.3"
libc = "0.2"
