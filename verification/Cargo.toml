[package]
name = "threshold_spend"
version = "0.1.0"
edition = "2021"
publish = false

[dependencies]
anyhow = "1"
bitcoincore-rpc = "0.16"
clightningrpc = "*"
jsonrpsee = { version = "0.16", features = ["server"] }
lightning = "0.0.113"
lightning-background-processor = "0.0.113"
lightning-block-sync = "0.0.113"
lightning-invoice = "0.21"
lightning-net-tokio = "0.0.113"
lightning-persister = "0.0.113"
miniscript = "9"
secp256k1 = { version = "0.24", features = ["rand-std"] }
time = "0.3"
tokio = { version = "1", features = ["full"] }
