[package]
name = "sprig"
version = "0.1.0"
edition = "2021"
publish = false

[dependencies]
aes-gcm = "0.10"
anyhow = "1"
argon2 = "0.5"
axum = "0.7"
bincode = "1.3"
clap = { version = "4", features = ["derive"] }
crossbeam = "0.8"
dialoguer = "0.11"
ed25519-dalek = { version = "2", features = ["rand_core"] }
hex = "0.4"
kadcast = "*"
pbkdf2 = "0.12"
rand = "0.8"
serde = { version = "1", features = ["derive"] }
serde_json = "1"
sha2 = "0.10"
tokio = { version = "1", features = ["full"] }
tower-http = { version = "0.5", features = ["trace"] }
tracing = "0.1"
tracing-subscriber = "0.3"
