[package]
name = "codex_providers"
version = "0.1.0"
edition = "2021"
publish = false

[dependencies]
clap = { version = "=4.6.7", features = ["derive"] }
crossterm = "=0.28.1"
http = "=1.5.0"
include_dir = "=0.7.4"
owo-colors = "=4.4.0"
ratatui = "=0.29.0"
serde_json = "=1.0.154"
thiserror = "=2.0.21"
tokio = { version = "=1.54.1", features = ["rt-multi-thread", "macros"] }
toml = "=0.8.23"
toml_edit = "=0.23.9"
tracing = "=0.1.44"
