[package]
name = "eths"
version = "0.1.0"
edition = "2021"
publish = false

[dependencies]
argh = "0.1"
csv = "1"
futures = "0.3"
rand_chacha = "0.3"
reth-ecies = "*"
reth-eth-wire = "*"
reth-primitives = "*"
secp256k1 = { version = "0.27", features = ["rand-std"] }
serde = { version = "1", features = ["derive"] }
thiserror = "1"
tokio = { version = "1", features = ["full"] }
tracing = "0.1"
tracing-subscriber = { version = "0.3", features = ["env-filter"] }
