[package]
name = "rscan"
version = "0.1.0"
edition = "2021"
publish = false

[dependencies]
afpacket = "*"
base64 = "*"
clap = { version = "*", features = ["derive"] }
crossbeam-channel = "*"
env_logger = "*"
etherparse = "*"
log = "*"
memchr = "*"
rand = "*"
serde = { version = "*", features = ["derive"] }
serde_json = "*"
serde_with = { version = "*", features = ["base64"] }
serde_yaml = "*"
