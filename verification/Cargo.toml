[package]
name = "runbook_tui"
version = "0.1.0"
edition = "2021"
publish = false

[dependencies]
anyhow = "=1.0.104"
crossterm = "=0.29.0"
cwl_core = "=0.15.1"
dirs = "=7.0.0"
ratatui = "=0.30.2"
reqwest = { version = "=0.12.28", default-features = false, features = ["rustls-tls"] }
rust-i18n = "=3.1.5"
serde = { version = "=1.0.229", features = ["derive"] }
serde_json = "=1.0.154"
serde_yaml = "=0.9.34"
shlex = "=1.3.0"
tokio = { version = "=1.54.1", features = ["full"] }
toml = "=1.1.8"
unicode-width = "=0.2.3"
