[package]
name = "rbuster"
version = "1.0.0"
edition = "2021"
publish = false

[dependencies]
clap = { version = "4", features = ["derive"] }
colored = "2"
futures = "0.3"
hickory-resolver = "0.24"
reqwest = { version = "0.12", features = ["socks"] }
serde = { version = "1", features = ["derive"] }
serde_json = "1"
tokio = { version = "1", features = ["full"] }
