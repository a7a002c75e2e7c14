[package]
name = "stark_core"
version = "0.1.0"
edition = "2021"
publish = false

[dependencies]
blake2-rfc = "0.2"
hex = "0.4"
wasm-bindgen = "0.2"
