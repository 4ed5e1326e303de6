[package]
name = "rugit"
version = "0.1.0"
edition = "2021"
publish = false

[dependencies]
ratatui = "=0.29.0"
fuzzy-matcher = "=0.3.7"
crossbeam-channel = "=0.5.17"
notify-debouncer-mini = "=0.4.1"
serde = { version = "=1.0.229", features = ["derive"] }
toml = "=0.8.23"
thiserror = "=2.0.21"
anyhow = "=1.0.104"
unicode-width = "=0.2.0"
