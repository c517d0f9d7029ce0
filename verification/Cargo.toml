[package]
name = "pager_theme"
version = "0.1.0"
edition = "2021"
publish = false

[dependencies]
toml = "*"
ratatui = "*"
regex = "*"
serde = { version = "*", features = ["derive"] }
tokio = { version = "*", features = ["fs", "sync", "time", "rt", "macros"] }
tracing = "*"
anyhow = "*"
