[package]
name = "keygen"
version = "0.1.0"
edition = "2021"
publish = false

[dependencies]
multi-party-ecdsa = "=0.8.1"
curv-kzen = "=0.9.0"
sha2 = "=0.9.9"
libp2p-identity = { version = "=0.3.0", features = ["peerid"] }
threshold_crypto = "=0.4.0"
rand = "=0.7.3"
rand_chacha = "=0.2.2"
bincode = "=1.3.3"
serde = { version = "=1.0.229", features = ["derive"] }
blake2-rfc = "=0.2.18"
parity-scale-codec = "=3.7.5"
tiny-bip39 = "=0.8.2"
substrate-bip39 = "=0.4.5"
futures = "=0.3.34"
parking_lot = "=0.13.0"
log = "=0.4.34"
