[package]
name = "anubis"
version = "0.1.0"
edition = "2021"
publish = false

[dependencies]
base64 = "*"
secret-toolkit = { version = "*", features = ["crypto"] }
sha2 = "*"
rand_chacha = "*"
rand_core = "*"
serde = { version = "1", features = ["derive"] }
serde_json = "1"
schemars = "*"
cosmwasm-std = "*"
cosmwasm-storage = "*"
