[package]
name = "patient_access_api"
version = "0.1.0"
edition = "2021"
publish = false

[dependencies]
oauth2 = { version = "=4.4.2", default-features = false }
axum = "=0.6.20"
reqwest = { version = "=0.11.27", default-features = false, features = ["json", "rustls-tls"] }
tokio = { version = "1", features = ["full"] }
serde = { version = "1", features = ["derive"] }
config = "=0.13.4"
clap = { version = "=4.6.7", features = ["derive"] }
tracing = "0.1"
tracing-subscriber = { version = "0.3", features = ["env-filter"] }
url = "2"
ngrok = { version = "=0.13.1", features = ["hyper"] }
