[package]
name = "unifand"
version = "0.6.3"
edition = "2021"
publish = false

[dependencies]
anyhow = "1"
env_logger = { version = "0.11", default-features = false }
libc = "0.2"
log = "0.4"
nvml-wrapper = "0.13"
serde = { version = "1", features = ["derive"] }
serde_ignored = "0.1"
signal-hook = "0.4"
tiny_http = "0.12"
toml = "1"
