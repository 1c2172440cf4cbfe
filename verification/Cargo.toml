[package]
name = "tunneld"
version = "0.1.0"
edition = "2021"
publish = false

[dependencies]
uuid = { version = "*", features = ["v4"] }
tokio = { version = "*", features = ["full"] }
tokio-util = "*"
anyhow = "*"
bytes = "*"
clap = { version = "*", features = ["derive"] }
tracing = "*"
