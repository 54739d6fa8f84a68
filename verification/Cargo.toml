[package]
name = "rcode"
version = "0.1.0"
edition = "2021"
publish = false
rust-version = "1.95"

[dependencies]
regex = "=1.13.1"
textwrap = "=0.16.4"
ratatui = "=0.30.2"
ratatui-textarea = "=0.9.4"
crossterm = "=0.29.0"
rig-core = "=0.32.0"
tokio = { version = "=1.54.1", features = ["rt-multi-thread", "macros"] }
dotenvy = "=0.15.7"
ignore = "=0.4.34"
serde = { version = "=1.0.229", features = ["derive"] }
serde_json = "=1.0.154"
schemars = "=1.2.3"
tui-scrollview = "=0.6.8"
