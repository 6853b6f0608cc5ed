[package]
name = "peer_lifecycle"
version = "0.1.0"
edition = "2021"
publish = false

[dependencies]
atspi = "*"
zbus = "*"
async-lock = "*"
tokio = { version = "*", features = ["rt-multi-thread", "macros", "time"] }
tracing = "*"
tracing-subscriber = "*"
