[package]
name = "eth_wallet"
version = "0.1.0"
edition = "2021"
publish = false

[dependencies]
anyhow = "=1.0.104"
axum = "=0.8.9"
chrono = { version = "=0.4.45", features = ["serde"] }
rand = "=0.8.8"
secp256k1 = "=0.33.1"
serde = { version = "=1.0.229", features = ["derive"] }
serde_json = "=1.0.151"
tiny-keccak = { version = "=2.0.2", features = ["keccak"] }
tokio = { version = "=1.53.2", features = ["full"] }
tracing = "=0.1.44"
tracing-subscriber = "=0.3.23"
web3 = { version = "=0.19.0", default-features = false, features = ["ws-tokio", "signing"] }
