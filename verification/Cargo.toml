[package]
name = "nl_host"
version = "0.1.0"
edition = "2021"
publish = false

[dependencies]
openh264 = "*"
crossbeam-channel = "*"
clap = { version = "*", features = ["derive"] }
env_logger = "*"
anyhow = "*"
image = "*"
chrono = "*"
dirs = "*"

[dev-dependencies]
serde_json = "*"
