[package]
name = "tierfs"
version = "0.1.0"
edition = "2021"
publish = false

[dependencies]
rust-ini = { version = "=0.21.3", features = ["inline-comment"] }
serde = { version = "=1.0.229", features = ["derive"] }
serde_json = "=1.0.154"
rusqlite = "=0.41.1"
clap = { version = "=4.6.7", features = ["derive"] }
env_logger = "=0.11.11"
log = "=0.4.35"
fuser = "=0.18.0"
nix = { version = "=0.31.3", features = ["fs", "user"] }
