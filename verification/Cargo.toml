[package]
name = "prism_prover"
version = "0.1.0"
edition = "2021"
publish = false

[dependencies]
anyhow = "=1.0.104"
base64 = "=0.22.1"
borsh = "=1.8.1"
ed25519-consensus = "=2.1.0"
jmt = { version = "=0.11.0", features = ["mocks"] }
keystore-rs = "=0.1.2"
secp256k1 = { version = "=0.29.1", features = ["global-context", "rand-std"] }
serde = { version = "=1.0.229", features = ["derive"] }
sha2 = "=0.10.9"
tokio = { version = "=1.54.1", features = ["macros", "rt-multi-thread", "sync"] }

[dev-dependencies]
rand = "=0.8.8"
