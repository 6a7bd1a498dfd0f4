[package]
name = "vault"
version = "0.1.0"
edition = "2021"
publish = false

[dependencies]
axum = "=0.6.20"
axum-server = { version = "=0.5.1", features = ["tls-rustls"] }
confy = "=0.5.1"
data-encoding = "=2.11.1"
dialoguer = "=0.10.4"
dryoc = { version = "=2.0.0", features = ["serde"] }
read_input = "=0.8.6"
reqwest = { version = "=0.11.27", default-features = false, features = ["blocking", "json", "rustls-tls"] }
rustls = "=0.21.12"
rustls-pemfile = "=1.0.4"
serde = { version = "=1.0.229", features = ["derive"] }
serde_json = "=1.0.154"
sharks = "=0.5.0"
tokio = { version = "=1.54.1", features = ["rt-multi-thread", "macros"] }
zxcvbn = "=2.2.2"
