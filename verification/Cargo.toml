[package]
name = "ezlotter_core"
version = "0.1.0"
edition = "2021"
publish = false

[dependencies]
base64 = "*"
chrono = "*"
csv = "*"
ed25519-dalek = "*"
openssl = "*"
serde_json = "*"
sha2 = "*"
