[package]
name = "lukan-tui"
version = "0.1.0"
edition = "2021"
publish = false

[dependencies]
unicode-width = "=0.2.3"
crossterm = "=0.29.0"
portable-pty = "=0.9.0"
tokio = { version = "=1.54.1", features = ["sync", "rt", "macros", "time"] }
anyhow = "=1.0.104"
chrono = { version = "=0.4.45", default-features = false, features = ["clock", "std"] }
serde_json = "=1.0.154"
ratatui = "=0.30.2"
