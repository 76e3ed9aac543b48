[package]
name = "recording_analyzer"
version = "0.1.0"
edition = "2021"
publish = false

[dependencies]
wasm-bindgen = "*"
serde-wasm-bindgen = "*"
console_error_panic_hook = "*"
serde = { version = "*", features = ["derive"] }
derive_more = { version = "*", features = ["from"] }
itertools = "*"
