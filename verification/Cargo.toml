[package]
name = "clawshake"
version = "0.1.0"
edition = "2021"
publish = false

[dependencies]
anyhow = "=1.0.104"
axum = { version = "=0.8.9", default-features = false, features = ["http1", "json", "query", "tokio", "ws"] }
clap = { version = "=4.6.7", default-features = false, features = ["derive", "help", "std", "usage"] }
futures = "=0.3.34"
libp2p = { version = "=0.56.0", default-features = false, features = ["autonat", "dcutr", "dns", "identify", "kad", "macros", "mdns", "noise", "quic", "relay", "rendezvous", "tcp", "tokio", "yamux"] }
libp2p-stream = "=0.4.0-alpha"
notify = "=8.2.1"
reqwest = { version = "=0.12.28", default-features = false, features = ["json"] }
rusqlite = { version = "=0.41.1", features = ["bundled"] }
serde = { version = "=1.0.229", features = ["derive"] }
serde_json = "=1.0.154"
tokio = { version = "=1.54.1", features = ["fs", "io-std", "io-util", "macros", "net", "process", "rt-multi-thread", "signal", "sync", "time"] }
toml = { version = "=1.1.8", default-features = false, features = ["display", "parse", "serde", "std"] }
tracing = "=0.1.44"
tracing-subscriber = { version = "=0.3.23", default-features = false, features = ["fmt", "std"] }
uuid = { version = "=1.29.0", features = ["v4"] }
which = { version = "=8.0.6", default-features = false, features = ["real-sys"] }
