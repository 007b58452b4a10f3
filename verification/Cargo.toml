[package]
name = "banker"
version = "0.1.0"
edition = "2021"
publish = false

[dependencies]
chrono = "*"
dotenvy = "*"
reqwest = { version = "*", default-features = false, features = ["blocking", "json", "rustls-tls"] }
serde = { version = "*", features = ["derive"] }
serde_json = "*"
url = "*"
