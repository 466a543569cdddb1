[package]
name = "rate_limiting"
version = "0.1.0"
edition = "2021"
publish = false

[dependencies]
chrono = { version = "0.4", default-features = false, features = ["std"] }
log = "0.4"
proxy-wasm = "0.2"
serde = { version = "1", features = ["derive"] }
serde-json-wasm = "1"
