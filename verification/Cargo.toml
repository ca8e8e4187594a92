[package]
name = "aginisi"
version = "0.1.0"
edition = "2021"
publish = false

[dependencies]
regex = "=1.13.1"
serde_json = "=1.0.154"
serde = { version = "=1.0.229", features = ["derive"] }
toml = "=0.8.23"
clap = { version = "=4.6.7", features = ["derive"] }
axum = { version = "=0.8.9", features = ["multipart"] }
tokio = { version = "=1.54.1", features = ["full"] }
tokio-util = { version = "=0.7.20", features = ["io"] }
socketioxide = "=0.18.7"
jsonwebtoken = "=9.3.1"
argon2 = { version = "=0.5.3", features = ["std"] }
chrono = "=0.4.45"
tracing = "=0.1.44"
tracing-subscriber = "=0.3.23"
