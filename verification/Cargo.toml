[package]
name = "cighash_all_utils"
version = "0.1.0"
edition = "2021"
publish = false

[dependencies]
ckb-hash = "*"
ckb-gen-types = "*"
ckb-mock-tx-types = "*"
serde_json = "*"
clap = { version = "*", features = ["derive"] }
