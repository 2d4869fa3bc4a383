[package]
name = "eth_wallet"
version = "0.1.0"
edition = "2021"
publish = false

[dependencies]
anyhow = "1"
dotenv = "0.15"
rand = "0.8"
secp256k1 = { version = "0.27", features = ["rand-std"] }
tiny-keccak = "1.5"
tokio = { version = "1", features = ["macros", "rt-multi-thread"] }
web3 = { version = "0.19", default-features = false, features = ["ws-tokio", "signing"] }

[dev-dependencies]
serde_json = "1"
