[package]
name = "hybrid_chain"
version = "0.1.0"
edition = "2021"
publish = false

[dependencies]
sha2 = "0.10"
curve25519-dalek = "4"
hex = "0.4"
serde = { version = "1", features = ["derive"] }
bincode = "1"
chrono = "0.4"
log = "0.4"
env_logger = "0.11"
thiserror = "1"

[dev-dependencies]
serde_json = "1"
