[package]
name = "vapordose"
version = "0.5.0"
edition = "2021"
publish = false

[dependencies]
regex = "1"
serde = { version = "1", features = ["derive"] }
serde_json = "1"
anyhow = "1"
walkdir = "2"
reqwest = { version = "0.12", features = ["json"] }
tokio = { version = "1", features = ["rt-multi-thread"] }
zip = "2"
bytes = "1"
env_logger = "0.11"
gtk4 = "0.7"
libadwaita = "0.5"
