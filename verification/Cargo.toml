[package]
name = "disrust"
version = "0.1.0"
edition = "2021"
publish = false

[dependencies]
serde_json = "1"
tokio = { version = "1", features = ["macros", "rt-multi-thread", "sync"] }
tokio-tungstenite = { version = "0.21", features = ["native-tls"] }
futures = "0.3"
url = "2"
reqwest = "0.12"
ratatui = "0.29"
crossterm = "0.28"
