[package]
name = "aether"
version = "0.1.0"
edition = "2021"
publish = false

[dependencies]
dashmap = "5"
parking_lot = "0.12"
serde = { version = "1", features = ["derive"] }
serde_json = "1"
thiserror = "1"
tracing = "0.1"
tracing-subscriber = "0.3"
anyhow = "1"
clap = { version = "4", features = ["derive"] }
indicatif = "0.17"
rand = "0.8"
tabled = "*"
tokio = { version = "1", features = ["rt", "time", "macros", "sync"] }
