[package]
name = "wasm_bindgen_backend"
version = "0.1.0"
edition = "2021"
publish = false

[dependencies]
wasm-bindgen-shared = "=0.2.47"
proc-macro2 = "0.4"
quote = "0.6"
syn = { version = "0.15", features = ["full"] }
lazy_static = "1"
