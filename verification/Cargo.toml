[package]
name = "crock"
version = "0.1.0"
edition = "2021"
publish = false

[dependencies]
color-eyre = "=0.6.5"
crossterm = { version = "=0.29.0", features = ["event-stream"] }
futures = "=0.3.34"
notify-rust = "=4.18.2"
ratatui = "=0.30.2"
regex = "=1.13.1"
serde = { version = "=1.0.229", features = ["derive"] }
thiserror = "=2.0.21"
tokio = { version = "=1.54.1", features = ["rt", "time", "sync", "macros"] }
toml = "=1.1.8"
tracing = "=0.1.44"
tracing-appender = "=0.2.5"
tracing-subscriber = { version = "=0.3.23", features = ["env-filter", "json"] }
tui-big-text = "=0.8.10"
tui-input = "=0.15.5"
