[package]
name = "deb_toolkit"
version = "0.1.0"
edition = "2021"
publish = false

[dependencies]
minijinja = "2"
serde = { version = "1", features = ["derive"] }
serde_json = "1"
clap = { version = "4", features = ["derive"] }
env_logger = "0.11"
log = "0.4"
anyhow = "1"

[dev-dependencies]
tempfile = "3"
