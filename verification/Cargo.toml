[package]
name = "soroban-upgrade-safeguard"
version = "0.1.0"
edition = "2021"
publish = false

[dependencies]
anyhow = "1"
colored = "2"
dirs = "5"
hex = "0.4"
schemars = "0.8"
serde = { version = "1", features = ["derive"] }
serde_json = "1"
sha2 = "0.10"
stellar-strkey = "0.0"
stellar-xdr = { version = "22", default-features = false, features = ["std", "curr", "base64"] }
ureq = { version = "2", features = ["json"] }
wasmparser = "0.220"
