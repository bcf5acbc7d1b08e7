[package]
name = "prusia_vault"
version = "0.1.0"
edition = "2021"
publish = false

[dependencies]
aes-gcm = "0.10"
base64 = "0.22"
dirs = "5"
getrandom = "0.2"
pqcrypto-kyber = "0.8"
pqcrypto-traits = "0.3"
serde = { version = "1", features = ["derive"] }
serde_json = "1"
sha2 = "0.10"
thiserror = "1"

[dev-dependencies]
tempfile = "3"
