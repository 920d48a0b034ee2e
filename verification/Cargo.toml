[package]
name = "identity"
version = "0.1.0"
edition = "2021"
publish = false

[dependencies]
sha2 = "0.10"
bs58 = "0.5"
ed25519-dalek = "2"
getrandom = "0.2"
serde = { version = "1", features = ["derive"] }
serde_json = "1"
wasm-bindgen = { version = "0.2", features = ["serde-serialize"] }
