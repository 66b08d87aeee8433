[package]
name = "channel_relay"
version = "0.1.0"
edition = "2021"
publish = false

[dependencies]
anyhow = "1"
nonzero_ext = "0.3"
poise = "0.6"
tokio = { version = "1", features = ["rt-multi-thread", "macros"] }
tracing = "0.1"
