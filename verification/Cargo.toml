[package]
name = "procmon"
version = "0.1.0"
edition = "2021"
publish = false

[dependencies]
regex = "1"
sha2 = "0.10"
nucleo = "*"
serde = { version = "1", features = ["derive"] }
serde_json = "1"
toml = "*"
ctrlc = "*"
crossterm = "*"
ratatui = "*"
unicode-width = "*"
tracing = "*"
anyhow = "1"
