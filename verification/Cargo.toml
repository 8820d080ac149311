[package]
name = "hn_core"
version = "0.1.0"
edition = "2021"
publish = false

[dependencies]
serde_json = "=1.0.154"
serde = { version = "=1.0.229", features = ["derive"] }
reqwest = { version = "=0.12.28", default-features = false, features = ["rustls-tls"] }
tokio = { version = "=1.54.1", features = ["rt-multi-thread", "sync", "time", "macros"] }
tokio-util = "=0.7.20"
futures = "=0.3.34"
anyhow = "=1.0.104"
tracing = "=0.1.44"
once_cell = "=1.21.4"
jiff = { version = "0.2", features = ["serde"] }
dirs = "*"
ron = "*"
regex = "1"
tracing-subscriber = { version = "0.3", features = ["env-filter"] }
tracing-appender = "0.2"
