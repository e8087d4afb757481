[package]
name = "sha3-visualizer"
version = "0.1.0"
edition = "2021"
publish = false

[dependencies]
sha3 = "0.10"
clap = { version = "4", features = ["derive"] }
atty = "0.2"
wasm-bindgen = "0.2"
