[package]
name = "cam_rs"
version = "0.1.0"
edition = "2021"
publish = false

[dependencies]
axum = "0.8"
base64 = "0.22"
dotenvy = "0.15"
rand = "0.10"
reqwest = { version = "0.12", default-features = false }
roxmltree = "0.21"
serde = { version = "1", features = ["derive"] }
serde_json = "1"
sha1 = "0.10"
time = { version = "0.3", features = ["formatting"] }
tokio = { version = "1", features = ["full"] }
