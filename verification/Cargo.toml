[package]
name = "pocketty"
version = "0.1.0"
edition = "2021"
publish = false

[dependencies]
anyhow = "1"
cpal = "*"
crossbeam-channel = "0.5"
crossterm = "*"
hound = "3"
ratatui = "*"
serde = { version = "1", features = ["derive"] }
serde_json = "1"
