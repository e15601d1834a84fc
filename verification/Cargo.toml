[package]
name = "sshrpc"
version = "0.1.0"
edition = "2021"
publish = false

[dependencies]
anyhow = "1"
futures = "0.3"
russh = "*"
serde = { version = "1", features = ["derive"] }
tarpc = { version = "*", features = ["serde-transport", "serde-transport-bincode", "tcp", "tokio1"] }
thiserror = "1"
tokio = { version = "1", features = ["io-util", "net", "rt"] }
tokio-util = { version = "0.7", features = ["codec"] }
tracing = "0.1"
