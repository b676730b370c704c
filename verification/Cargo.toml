[package]
name = "epson-watchdog"
version = "0.1.0"
edition = "2021"
publish = false

[dependencies]
anyhow = "1"
clap = { version = "4.5", features = ["derive"] }
env_logger = "*"
log = "0.4"
mdns-sd = "0.18"
serde = { version = "1", features = ["derive"] }
tokio = { version = "1", features = ["rt-multi-thread", "time"] }
toml = "*"
