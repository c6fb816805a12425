[package]
name = "gitme"
version = "0.1.0"
edition = "2021"
publish = false

[dependencies]
arc-swap = "*"
clap = { version = "*", features = ["derive"] }
color-eyre = "*"
crossterm = { version = "0.28", features = ["event-stream"] }
dirs = "*"
inquire = "*"
octocrab = "=0.44.1"
once_cell = "*"
open = "*"
ratatui = "0.29"
reqwest = { version = "*", default-features = false, features = ["rustls-tls", "json"] }
serde = { version = "*", features = ["derive"] }
serde_json = "*"
textwrap = "=0.16.4"
tokio = { version = "*", features = ["macros", "rt-multi-thread", "time", "sync"] }
tokio-stream = "*"
toml = "*"
tui-input = "0.11"
