[package]
name = "oxion"
version = "0.1.0"
edition = "2021"
publish = false

[dependencies]
sha2 = "0.10"
rand = "0.8"
serde = { version = "1", features = ["derive"] }
serde_json = "1"
tokio = { version = "1", features = ["full"] }
actix-web = "4"
actix-service = "2"
futures = "0.3"
base64 = "0.13"
ed25519-dalek = "1"
