[package]
name = "moral_ledger"
version = "0.1.0"
edition = "2021"
publish = false

[dependencies]
sha2 = "=0.10.9"
uuid = { version = "=1.27.0", features = ["v4"] }
chrono = "=0.4.45"
ed25519-dalek = "=3.0.0"
regex = "=1.13.1"
serde = { version = "=1.0.229", features = ["derive"] }
serde_json = "=1.0.151"
