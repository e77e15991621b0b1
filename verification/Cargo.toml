[package]
name = "crates_language_server"
version = "0.1.0"
edition = "2021"
publish = false

[dependencies]
semver = "1"
taplo = "*"
serde = { version = "1", features = ["derive"] }
serde_json = "1"
thiserror = "1"
tokio = { version = "1", features = ["full"] }
reqwest = { version = "0.12", default-features = false, features = ["rustls-tls"] }
tower-lsp = "0.20"
ropey = "1"
url = "2"
