[package]
name = "call_relay"
version = "0.1.0"
edition = "2021"
publish = false

[dependencies]
lapin = "=4.12.0"
tokio = { version = "=1.53.2", features = ["rt-multi-thread", "macros", "sync"] }
tracing = "=0.1.44"
tracing-subscriber = "=0.3.23"

[dev-dependencies]
serde_json = "=1.0.151"
