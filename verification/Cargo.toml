[package]
name = "clock_rs"
version = "0.1.0"
edition = "2021"
publish = false

[dependencies]
toml_edit = "0.22"
toml = "0.8"
serde = { version = "1", features = ["derive"] }
clap = { version = "4", features = ["derive"] }
crossterm = "0.28"
dirs = "5"
signal-hook = "0.3"
