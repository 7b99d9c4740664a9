[package]
name = "searcher"
version = "0.1.0"
edition = "2021"
publish = false

[dependencies]
jieba-rs = "*"
fast2s = "*"
tantivy = "*"
serde = { version = "*", features = ["derive"] }
serde_with = "*"
serde_bytes = "*"
wasm-bindgen = "*"
serde-wasm-bindgen = "*"
console_error_panic_hook = "*"
