[package]
name = "juper_swap_api"
version = "0.1.0"
edition = "2021"
publish = false

[dependencies]
solana-sdk = "1"
base64 = "0.13"
bincode = "1"
serde = { version = "1", features = ["derive"] }
serde_json = "1"
anyhow = "1"
once_cell = "1"
reqwest = { version = "0.11", default-features = false, features = ["blocking", "json", "rustls-tls"] }
async-trait = "0.1"
