[package]
name = "eirc"
version = "0.1.0"
edition = "2021"
publish = false

[dependencies]
bufstream = "0.1"
env_logger = "*"
libc = "0.2"
log = "0.4"
serde = { version = "1", features = ["derive"] }
shared_library = "0.1"
toml = "*"
