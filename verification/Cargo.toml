[package]
name = "shielded_pool"
version = "0.1.0"
edition = "2021"
publish = false

[dependencies]
sha2 = "0.10"
ed25519-dalek = "2"
hex = "0.4"
num-bigint = "0.4"
serde = { version = "1", features = ["derive"] }
serde_json = "1"
anyhow = "1"
tempfile = "3"
rand = "0.8"
log = "0.4"
env_logger = "0.11"
