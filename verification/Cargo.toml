[package]
name = "nexusnet"
version = "0.2.0"
edition = "2021"
publish = false

[dependencies]
base64 = "=0.22.1"
chacha20poly1305 = "=0.10.1"
chrono = "=0.4.45"
ciborium = "=0.2.2"
colored = "=3.1.1"
coset = "=0.4.2"
flate2 = "=1.1.10"
get_if_addrs = "=0.5.3"
hkdf = "=0.12.4"
libp2p = { version = "=0.56.0", features = ["tokio", "tcp", "noise", "yamux", "identify", "kad", "ping", "relay", "request-response", "cbor", "macros", "ed25519", "serde"] }
ml-dsa = "=0.1.2"
ml-kem = { version = "=0.3.4", features = ["getrandom"] }
rand_core = { version = "=0.6.4", features = ["getrandom"] }
scopeguard = "=1.2.0"
serde = { version = "=1.0.229", features = ["derive"] }
serde_json = "=1.0.154"
sha2 = "=0.10.9"
tokio = { version = "=1.54.1", features = ["full"] }
toml = { version = "=0.9.12", features = ["preserve_order"] }
uuid = { version = "=1.29.0", features = ["v4", "serde"] }
x25519-dalek = { version = "=2.0.1", features = ["static_secrets"] }
