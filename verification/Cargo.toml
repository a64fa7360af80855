[package]
name = "codey"
version = "0.1.0"
edition = "2021"
publish = false

[dependencies]
anyhow = "1"
async-trait = "0.1"
crossterm = { version = "0.28", features = ["event-stream"] }
dotenvy = "0.15"
futures = "0.3"
ratatui = { version = "0.28", features = ["unstable-rendered-line-info"] }
reqwest = { version = "0.12", default-features = false, features = ["json"] }
serde_json = "1"
tokio = { version = "1", features = ["full"] }
