[package]
name = "tls_engine"
version = "0.1.0"
edition = "2021"
publish = false

[dependencies]
base64 = "0.22"
rustls-webpki = { version = "0.103", default-features = false, features = ["alloc", "std"] }
rustls-pki-types = "1"
env_logger = "0.11"
nix = { version = "0.29", features = ["signal"] }
