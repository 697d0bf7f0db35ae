[package]
name = "license_manager"
version = "0.1.0"
edition = "2021"
publish = false

[dependencies]
ed25519-dalek = "=1.0.1"
chrono = "=0.4.45"
ic-cdk = "=0.6.10"
ic-cdk-macros = "=0.6.10"
ic-certified-map = "=0.4.1"
ic-cron = "=0.7.1"
include-base64 = "=0.1.0"
serde = { version = "=1.0.229", features = ["derive"] }
