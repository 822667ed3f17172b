[package]
name = "mpc_consensus"
version = "0.1.0"
edition = "2021"
publish = false

[dependencies]
parity-scale-codec = { version = "=3.7.5", features = ["derive"] }
bincode = "=1.3.3"
serde_json = "1"
serde = { version = "=1.0.229", features = ["derive"] }
multihash = "=0.19.5"
hbbft = "=0.1.1"
multi-party-ecdsa = "=0.8.1"
curv-kzen = "=0.9.0"
sha2 = "=0.9.9"
bs58 = "=0.5.1"
log = "=0.4.35"
parking_lot = "=0.13.0"
futures = "=0.3.34"

[dev-dependencies]
rand = "=0.6.5"
