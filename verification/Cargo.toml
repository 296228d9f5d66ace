[package]
name = "heimdall"
version = "0.1.0"
edition = "2021"
publish = false

[dependencies]
anyhow = "1"
chrono = "0.4"
clap = { version = "4", features = ["derive"] }
color-eyre = "0.6"
crossterm = "*"
flatbuffers = "*"
nng = "1"
ratatui = "*"
rusqlite = { version = "*", features = ["bundled"] }
serde_json = "1"
sys-info = "0.9"
tokio = { version = "1", features = ["rt-multi-thread", "macros"] }
