[package]
name = "taktakk"
version = "0.1.0"
edition = "2021"
publish = false

[dependencies]
sha2 = "=0.10.9"
ed25519-dalek = "=2.2.0"
argon2 = "=0.5.3"
rand = "=0.8.8"
zeroize = "=1.9.1"
serde = { version = "=1.0.229", features = ["derive"] }
serde_json = "=1.0.154"
uuid = { version = "=1.29.0", features = ["v4"] }
sqlx = { version = "=0.8.6", default-features = false, features = ["sqlite", "runtime-tokio"] }
thiserror = "=1.0.69"
tokio = { version = "=1.54.1", features = ["rt", "macros"] }
