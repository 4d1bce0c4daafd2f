[package]
name = "pay"
version = "0.1.0"
edition = "2021"
publish = false

[dependencies]
dashmap = "*"
tokio = { version = "*", features = ["rt-multi-thread", "macros", "fs", "io-util", "io-std", "sync", "signal"] }
tokio-util = { version = "*", features = ["compat"] }
futures = "*"
csv = "*"
csv-async = "*"
serde = { version = "*", features = ["derive"] }
thiserror = "*"
