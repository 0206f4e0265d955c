[package]
name = "backup_tool"
version = "0.1.8"
edition = "2021"
publish = false

[dependencies]
anyhow = "1"
chrono = "0.4"
clap = { version = "4", features = ["derive"] }
dirs = "5"
fs4 = { version = "0.12", features = ["sync"] }
gtk4 = "0.9"
serde = { version = "1", features = ["derive"] }
serde_json = "1"
toml = "0.8"
