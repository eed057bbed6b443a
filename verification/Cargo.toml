[package]
name = "rs-query"
version = "0.1.0"
edition = "2021"
publish = false

[dependencies]
tokio = { version = "1", features = ["sync", "time", "rt", "rt-multi-thread", "macros"] }
tokio-util = "0.7"
dashmap = "6"
thiserror = "2"
chrono = "0.4"
