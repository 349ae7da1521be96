[package]
name = "viban"
version = "0.1.0"
edition = "2021"
publish = false

[dependencies]
serde = { version = "1", features = ["derive"] }
serde_json = "1"
uuid = { version = "1", features = ["v4"] }
getrandom = "0.3"
dirs = "6"
anyhow = "1"
tokio = { version = "1", features = ["full"] }
tokio-rusqlite = { version = "0.6", features = ["bundled"] }
tokio-tungstenite = "0.26"
futures-util = "0.3"
clap = { version = "4", features = ["derive"] }
tracing = "0.1"
tracing-subscriber = { version = "0.3", features = ["env-filter"] }
