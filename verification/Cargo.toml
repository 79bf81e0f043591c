[package]
name = "psbt_core"
version = "0.1.0"
edition = "2021"
publish = false

[dependencies]
bitcoin = { version = "=0.31.3", features = ["serde"] }
serde = { version = "=1.0.229", features = ["derive"] }
amplify = "=3.14.2"
strict_encoding = { version = "=0.9.0", default-features = false, features = ["derive"] }
