[package]
name = "autoraise-rs"
version = "0.1.0"
edition = "2021"
publish = false

[dependencies]
clap = { version = "4", features = ["derive"] }
serde = { version = "1", features = ["derive"] }
toml = "0.8"
dirs-next = "2"
log = "0.4"
env_logger = "0.11"
libc = "0.2"
core-foundation = "0.9"
objc = "0.2"
dispatch = "0.2"
