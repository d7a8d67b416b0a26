[package]
name = "zeroclaw_runtime"
version = "0.1.0"
edition = "2021"
publish = false

[dependencies]
anyhow = "=1.0.104"
async-trait = "=0.1.92"
chrono = { version = "=0.4.45", features = ["serde"] }
futures-util = "=0.3.34"
libc = "=0.2.191"
parking_lot = "=0.12.5"
rusqlite = { version = "=0.41.1", features = ["bundled"] }
serde = { version = "=1.0.229", features = ["derive"] }
serde_json = "=1.0.154"
sha2 = "=0.10.9"
tokio = { version = "=1.54.1", features = ["rt", "rt-multi-thread", "sync", "time", "net", "io-util", "io-std", "macros", "process"] }
tokio-util = "=0.7.20"
uuid = { version = "=1.29.0", features = ["v4"] }
