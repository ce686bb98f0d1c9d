[package]
name = "cyberdeck_tui"
version = "0.1.0"
edition = "2021"
publish = false

[dependencies]
reqwest = { version = "0.12", default-features = false }
tokio = { version = "1", features = ["rt", "rt-multi-thread", "macros", "time", "sync"] }
ratatui = "0.29"
crossterm = "0.28"
tracing = "0.1"
serde = { version = "1", features = ["derive"] }
serde_json = "1"
chrono = "0.4"
thiserror = "1"
