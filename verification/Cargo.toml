[package]
name = "reciprocity_bot"
version = "0.1.0"
edition = "2021"
publish = false

[dependencies]
arc-swap = "1"
arraydeque = "=0.4.5"
async-compat = "0.1"
clap = "2.33"
event-listener = "2"
futures = "0.3"
lavalink-rs = { version = "=0.7.2", features = ["rustls", "serenity"] }
log = "0.4"
rand = "=0.8.8"
serde = { version = "1", features = ["derive"] }
serde_yaml = "0.8"
serenity = { version = "=0.10.10", features = ["collector"] }
smol = "1"
songbird = { version = "=0.1.8", default-features = false, features = ["gateway", "serenity-rustls"] }
strum = "0.20"
strum_macros = "0.20"
thiserror = "1"
tokio = { version = "1", features = ["full"] }
tokio-stream = "0.1"
tokio-tungstenite = "0.14"
tracing-subscriber = "0.2"
url = "=2.5.8"
uuid = { version = "=0.8.2", features = ["v4"] }
