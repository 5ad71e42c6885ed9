[package]
name = "nix_throttle"
version = "0.1.0"
edition = "2021"
publish = false

[dependencies]
anyhow = "1"
env_logger = { version = "0.11", default-features = false }
log = "0.4"
nix = { version = "0.29", features = ["ptrace", "signal", "process"] }
