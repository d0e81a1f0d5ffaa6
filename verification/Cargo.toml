[package]
name = "qduct"
version = "0.1.0"
edition = "2021"
publish = false

[dependencies]
anyhow = "1"
base256 = "*"
bytes = "1"
clap = { version = "4", features = ["derive"] }
inquire = "*"
quinn = "0.11"
rcgen = "0.14"
ring = "0.17"
tokio = { version = "1", features = ["full"] }
tokio-util = "0.7"
tracing = { version = "0.1", features = ["log"] }
tracing-subscriber = "0.3"
