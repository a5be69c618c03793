[package]
name = "nodenet"
version = "0.1.0"
edition = "2021"
publish = false

[dependencies]
anyhow = "1"
aes-gcm = "0.10"
base64 = "0.22"
chrono = "0.4"
directories = "5"
futures = "0.3"
serde = { version = "1", features = ["derive"] }
serde_json = "1"
tokio = { version = "1", features = ["full"] }
uuid = { version = "1", features = ["v4"] }
reqwest = { version = "0.12", default-features = false, features = ["json", "cookies", "rustls-tls"] }
