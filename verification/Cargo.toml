[package]
name = "yt_grab"
version = "0.1.0"
edition = "2021"
publish = false

[dependencies]
url = "2.5.8"
serde = { version = "1", features = ["derive"] }
serde_json = "1"
async-trait = "0.1"
reqwest = { version = "0.12", default-features = false, features = ["rustls-tls"] }
