[package]
name = "cryptotokenkit"
version = "0.4.0"
edition = "2021"
publish = false

[dependencies]
serde = { version = "1", features = ["derive"] }
serde_json = "1"
serde_bytes = "0.11"
zeroize = "1"
libc = "0.2"
doom-fish-utils = "0.4"
