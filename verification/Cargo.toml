[package]
name = "openai_client"
version = "0.1.0"
edition = "2021"
publish = false

[dependencies]
anyhow = "1"
futures-util = "0.3"
log = "0.4"
reqwest = { version = "0.12", default-features = false, features = ["json"] }
reqwest-eventsource = "*"
serde = { version = "1", features = ["derive"] }
serde_json = "1"
tracing = "0.1"
