[package]
name = "rustsmb_server"
version = "0.1.0"
edition = "2021"
publish = false

[dependencies]
bytes = "1"
hex = "0.4"
rand = "0.8"
serde = { version = "1", features = ["derive"] }
tokio = { version = "1", features = ["io-util", "rt", "sync", "time", "macros"] }
tokio-stream = "0.1"
toml = "0.8"
tracing = "0.1"
