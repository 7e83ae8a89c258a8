[package]
name = "cursor2api"
version = "0.1.0"
edition = "2021"
publish = false

[dependencies]
getrandom = "=0.2.17"
keyring = { version = "=3.6.3", features = ["windows-native"] }
serde = { version = "=1.0.229", features = ["derive"] }
serde_json = "=1.0.154"
ureq = "=2.12.1"
zip = { version = "=2.6.1", default-features = false, features = ["deflate"] }

[dev-dependencies]
serde_json = "=1.0.154"
