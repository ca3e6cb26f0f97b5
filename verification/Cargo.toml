[package]
name = "flake_cli"
version = "0.1.0"
edition = "2021"
publish = false

[dependencies]
clap = { version = "*", features = ["derive"] }
env_logger = "*"
eyre = "*"
log = "*"
serde_json = "*"
tokio = { version = "*", features = ["full"] }
tokio-stream = "*"
which = "*"
xcommand = "*"
