[package]
name = "cec2uinput"
version = "0.1.0"
edition = "2021"
publish = false

[dependencies]
anyhow = "*"
cec-rs = "*"
clap = { version = "*", features = ["derive"] }
env_logger = "*"
hidapi = "*"
log = "*"
mouse-keyboard-input = "*"
serde = { version = "*", features = ["derive"] }
serde_yaml_ng = "*"
