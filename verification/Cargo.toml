[package]
name = "minichain"
version = "0.1.0"
edition = "2021"
publish = false

[dependencies]
sha3 = "*"
anyhow = "*"
axum = { version = "*", features = ["ws"] }
axum-streams = { version = "*", features = ["json"] }
futures-util = "*"
serde_json = "*"
tokio = { version = "*", features = ["full"] }
tokio-tungstenite = "*"
tracing = "*"
tracing-subscriber = "*"
