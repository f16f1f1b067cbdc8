[package]
name = "scs"
version = "0.1.0"
edition = "2021"
publish = false

[dependencies]
anyhow = "*"
clap = { version = "*", features = ["derive"] }
dialoguer = "*"
directories-next = "*"
futures = "*"
futures-timer = "*"
libp2p = { version = "*", default-features = false, features = ["ed25519", "identify", "ping", "dcutr", "relay", "request-response", "json", "tcp", "tls", "noise", "dns", "yamux", "quic", "macros", "tokio"] }
rand = "*"
rusqlite = { version = "*", features = ["bundled"] }
serde = { version = "*", features = ["derive"] }
serde_json = "*"
serde_yaml = "*"
time = { version = "*", features = ["formatting"] }
tokio = { version = "*", features = ["macros", "rt-multi-thread"] }
tracing = "*"
tracing-appender = "*"
tracing-subscriber = "*"
