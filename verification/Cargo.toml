[package]
name = "new_media"
version = "0.1.0"
edition = "2021"
publish = false

[dependencies]
base64 = "=0.21.7"
image = { version = "=0.24.9", default-features = false, features = ["png", "webp"] }
serde_json = "=1.0.154"
serde = { version = "=1.0.229", features = ["derive"] }
log = "=0.4.35"
crossbeam-channel = "=0.5.17"
parking_lot = "=0.12.5"
anyhow = "=1.0.104"
dotenvy = "=0.15.7"
pretty_env_logger = "=0.5.0"
tungstenite = "=0.21.0"
surf = { version = "2", default-features = false, features = ["h1-client-rustls"] }
actix-web = { version = "4", default-features = false }
pin-project = "1"
