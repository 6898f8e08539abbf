[package]
name = "asic_rs"
version = "0.1.0"
edition = "2021"
publish = false

[dependencies]
serde = { version = "=1.0.229", features = ["derive"] }
serde_json = "=1.0.154"
semver = "=1.0.28"
secrecy = "=0.10.3"
zeroize = "=1.9.1"
macaddr = "=1.0.1"
chrono = "=0.4.45"
sha2 = "=0.10.9"
