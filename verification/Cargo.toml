[package]
name = "molt_hub_server"
version = "0.1.0"
edition = "2021"
publish = false

[dependencies]
dashmap = "=6.2.1"
ulid = "=1.2.1"
chrono = "=0.4.45"
hmac = "=0.12.1"
sha2 = "=0.10.9"
subtle = "=2.6.1"
hex = "=0.4.3"
rand = "=0.8.8"
serde = { version = "=1.0.229", features = ["derive"] }
serde_json = "=1.0.154"
clap = { version = "=4.6.7", features = ["derive"] }
tokio = { version = "1", features = ["rt-multi-thread", "macros", "net", "signal", "sync", "time"] }
axum = "0.7"
tracing = "0.1"
tracing-subscriber = { version = "0.3", features = ["env-filter"] }
open = "5"
dotenvy = "0.15"
libc = "0.2"
