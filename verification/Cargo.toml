[package]
name = "routing"
version = "0.1.0"
edition = "2021"
publish = false

[dependencies]
cbor = "=0.4.1"
rustc-serialize = "=0.3.25"
lru-cache = "=0.1.2"
sodiumoxide = "=0.2.7"
