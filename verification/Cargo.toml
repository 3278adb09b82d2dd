[package]
name = "public-mdbooks"
version = "0.1.0"
edition = "2021"
publish = false

[dependencies]
chrono = "0.4"
clap = { version = "4", features = ["derive"] }
env_logger = "*"
git-digger = "*"
log = "0.4"
serde = { version = "1", features = ["derive"] }
serde_yaml = "0.9"
toml = "*"
