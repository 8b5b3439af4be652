[package]
name = "subrass"
version = "0.1.0"
edition = "2021"
publish = false

[dependencies]
encoding_rs = "=0.8.44"
dejavu = "=2.37.0"
ab_glyph = "0.2"
thiserror = "=2.0.21"
serde = { version = "=1.0.229", features = ["derive"] }
wasm-bindgen = "=0.2.130"
serde-wasm-bindgen = "=0.6.5"
