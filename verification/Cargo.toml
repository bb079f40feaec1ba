[package]
name = "freeq"
version = "0.1.0"
edition = "2021"
publish = false

[dependencies]
automerge = "0.5"
base64 = "=0.22.1"
bs58 = "0.5"
chrono = "=0.4.45"
ed25519-dalek = { version = "=2.2.0", features = ["rand_core"] }
hex = "=0.4.3"
hmac = "=0.12.1"
rand = "=0.8.8"
serde = { version = "=1.0.229", features = ["derive"] }
serde_json = "=1.0.154"
sha2 = "=0.10.9"
url = "=2.5.8"
