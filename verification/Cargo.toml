[package]
name = "commitui"
version = "0.1.0"
edition = "2021"
publish = false

[dependencies]
crossterm = "*"
dirs = "*"
ratatui = "*"
serde = { version = "*", features = ["derive"] }
tempfile = "*"
toml = "*"
