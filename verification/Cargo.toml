[package]
name = "reqwest_wasm_ext"
version = "0.1.0"
edition = "2021"
publish = false

[dependencies]
base64 = "0.13"
reqwest = { version = "0.11", default-features = false }
