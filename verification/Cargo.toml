[package]
name = "ardo"
version = "0.1.0"
edition = "2021"
publish = false

[dependencies]
base64 = "=0.23.1"
chacha20poly1305 = "=0.11.0"
chrono = "=0.4.45"
clap = { version = "=4.6.7", features = ["derive"] }
dialoguer = "=0.12.0"
reqwest = { version = "=0.13.5", default-features = false, features = ["form"] }
scrypt = "=0.12.0"
serde = { version = "=1.0.229", features = ["derive"] }
serde_json = "=1.0.151"
tokio = { version = "=1.53.2", features = ["rt-multi-thread", "macros"] }
