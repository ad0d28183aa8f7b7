[package]
name = "aoxcore"
version = "0.1.0"
edition = "2021"
publish = false

[dependencies]
sha3 = "0.10"
blake3 = "1"
hex = "0.4"
ed25519-dalek = "2"
pqcrypto-mldsa = "0.1"
pqcrypto-dilithium = "0.5"
pqcrypto-traits = "0.3"
bip39 = "2"
getrandom = "0.3"
rand = "0.9"
serde = { version = "1", features = ["derive"] }
serde_json = "1"
zeroize = "1"

[dev-dependencies]
base64 = "0.22"
