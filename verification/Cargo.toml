[package]
name = "instapi360_cloud"
version = "0.1.0"
edition = "2021"
publish = false

[dependencies]
base64 = "0.22"
hex = "0.4"
hmac = "0.12"
sha2 = "0.10"
reqwest = { version = "0.12", default-features = false, features = ["json", "stream", "rustls-tls"] }
serde = { version = "1", features = ["derive"] }
serde_json = "1"
url = "2"
thiserror = "1"
tokio = { version = "1", features = ["macros", "rt-multi-thread", "fs", "io-util"] }
futures = "0.3"
anyhow = "1"
clap = { version = "4", features = ["derive", "env"] }
directories = "5"
indicatif = "0.17"
tracing-subscriber = { version = "0.3", features = ["env-filter"] }
