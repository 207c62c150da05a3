[package]
name = "dragabyte"
version = "0.1.0"
edition = "2021"
publish = false

[dependencies]
base64 = "*"
fs2 = "*"
jwalk = "*"
regex = "*"
serde = { version = "*", features = ["derive"] }
serde_json = "*"

[dev-dependencies]
tempfile = "*"
