[package]
name = "commmon"
version = "0.1.0"
edition = "2021"
publish = false

[dependencies]
hex = "0.4"
serde = { version = "1", features = ["derive"] }
serde_json = "1"
tokio = { version = "1", features = ["full"] }
tokio-serial = { version = "5", default-features = false }
serialport = { version = "4", default-features = false }
tokio-util = "0.7"
chrono = "0.4"
axum = "0.7"
futures = "0.3"
async-stream = "0.3"
tracing = "0.1"
tracing-subscriber = "0.3"
clap = { version = "4", features = ["derive"] }
rustyline = "14"
anyhow = "1"
