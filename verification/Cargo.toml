[package]
name = "uring_echo"
version = "0.1.0"
edition = "2021"
publish = false

[dependencies]
anyhow = "1"
env_logger = "*"
io-uring = "*"
log = "0.4"
