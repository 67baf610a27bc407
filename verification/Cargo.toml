[package]
name = "witness_validation"
version = "0.1.0"
edition = "2021"
publish = false

[dependencies]
hashbrown = "=0.17.1"
eth_trie = "=0.6.1"
keccak-hash = "=0.12.0"
