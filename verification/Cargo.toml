[package]
name = "runnerguard"
version = "0.1.0"
edition = "2021"
publish = false

[dependencies]
regex = "1"
sha2 = "0.10"
quick-xml = "0.37"
serde_json = "1"
ratatui = "0.29"
crossterm = "0.28"
tokio = { version = "1", features = ["sync"] }
thiserror = "2"
clap = { version = "4", features = ["derive"] }
anyhow = "1"
