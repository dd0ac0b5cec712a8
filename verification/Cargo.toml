[package]
name = "content_hash"
version = "0.1.0"
edition = "2021"
publish = false

[dependencies]
sha2 = "0.10"
wasm-bindgen = "0.2"
serde-wasm-bindgen = "0.6"
