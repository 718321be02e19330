[package]
name = "arrow"
version = "0.1.0"
edition = "2021"
publish = false

[dependencies]
anyhow = "=1.0.104"
clap = { version = "=4.6.7", features = ["derive"] }
notify = "8"
serde = { version = "=1.0.229", features = ["derive"] }
serde_json = "=1.0.154"
