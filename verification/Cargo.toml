[package]
name = "ctrl"
version = "0.1.0"
edition = "2021"
publish = false

[dependencies]
itertools = "=0.15.0"
serde = { version = "=1.0.229", features = ["derive"] }
serde_json = "=1.0.154"
toml = "=0.8.23"
dotenv = "=0.15.0"
slack-rust = "0.0.1-alpha"
octocrab = "=0.47.1"
rocket = { version = "=0.5.2", default-features = false, features = ["json"] }
