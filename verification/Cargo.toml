[package]
name = "bbo_feed"
version = "0.1.0"
edition = "2021"
publish = false

[dependencies]
serde_json = "*"
clap = { version = "*", features = ["derive"] }
futures-util = "*"
tokio = { version = "*", features = ["macros", "rt-multi-thread", "io-util", "io-std"] }
tokio-tungstenite = "*"
url = "*"
