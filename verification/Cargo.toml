[package]
name = "local_block"
version = "0.1.0"
edition = "2021"
publish = false

[dependencies]
rlp = "0.5"
revm = { version = "*", default-features = false, features = ["std"] }
triehash = "0.8"
keccak-hasher = "0.15"
