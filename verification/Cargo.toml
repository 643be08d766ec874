[package]
name = "orderbook_merger"
version = "0.1.0"
edition = "2021"
publish = false

[dependencies]
anyhow = "1"
config = "0.13"
crossterm = "0.27"
futures = "0.3"
ratatui = "0.23"
reqwest = { version = "0.11", default-features = false, features = ["json"] }
rust_decimal = "1"
serde = { version = "1", features = ["derive"] }
serde-aux = "*"
serde_json = "1"
tokio = { version = "1", features = ["full"] }
tokio-stream = { version = "0.1", features = ["sync"] }
tokio-tungstenite = "0.20"
url = "2"
