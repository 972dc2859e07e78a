[package]
name = "layershellify"
version = "0.1.0"
edition = "2021"
publish = false

[dependencies]
bytemuck = "*"
calloop = "*"
clap = { version = "*", features = ["derive"] }
env_logger = "*"
log = "*"
nix = { version = "*", features = ["socket", "uio"] }
