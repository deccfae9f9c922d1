[package]
name = "logstream"
version = "0.1.0"
edition = "2021"
publish = false

[dependencies]
tokio-util = "*"
tokio = { version = "*", features = ["io-util", "time", "rt", "macros"] }
tokio-serial = { version = "*", default-features = false }
buf_redux = "*"
futures = "*"
async-trait = "*"
serde = { version = "*", features = ["derive"] }
serde_json = "*"
thiserror = "*"
