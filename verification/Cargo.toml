[package]
name = "ennui"
version = "0.1.0"
edition = "2021"
publish = false

[dependencies]
rand = "0.7"
serde = { version = "1", features = ["derive"] }
serde_yaml = "0.8"
serde_cbor = "0.11"
postgres = "0.19"
bytes = "1"
wasm-bindgen = "0.2"
lazy_static = "1"
mut_static = "5"
