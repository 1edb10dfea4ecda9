[package]
name = "qq_lite"
version = "0.1.0"
edition = "2021"
publish = false

[dependencies]
serde = { version = "1", features = ["derive"] }
serde_json = "1"
uuid = { version = "1", features = ["v4"] }
thiserror = "2"
anyhow = "1"
async-trait = "0.1"
tokio = { version = "1", features = ["full"] }
tokio-tungstenite = "*"
futures-util = { version = "0.3", features = ["sink"] }
sqlx = { version = "0.8", default-features = false, features = ["runtime-tokio", "sqlite"] }
ratatui = "0.29"
crossterm = "0.28"
