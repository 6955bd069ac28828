[package]
name = "manila"
version = "0.1.0"
edition = "2021"
publish = false

[dependencies]
argon2 = "0.5"
bip39 = "2"
chacha20poly1305 = "0.10"
chrono = "0.4"
csv = "1"
hkdf = "0.12"
rand = "0.8"
rusqlite = { version = "0.32", features = ["bundled"] }
serde = { version = "1", features = ["derive"] }
serde_json = "1"
sha2 = "0.10"
thiserror = "2"
uuid = { version = "1", features = ["v4"] }
zeroize = "1"
