[package]
name = "lucky_number"
version = "0.1.0"
edition = "2021"
publish = false

[dependencies]
base64 = "0.12"
rand = "0.7"
rand_chacha = "0.2"
rand_core = "0.5"
sha2 = "0.9"
subtle = "2"
serde = { version = "1.0", features = ["derive"] }
schemars = "0.7"
secret-toolkit = "0.2"
secret-cosmwasm-std = "0.10"
secret-cosmwasm-storage = "0.10"
