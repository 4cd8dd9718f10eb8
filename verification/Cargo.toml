[package]
name = "glmeter"
version = "0.1.0"
edition = "2021"
publish = false

[dependencies]
chrono = "0.4"
dirs = "*"
image = { version = "0.25", default-features = false, features = ["png"] }
ksni = { version = "0.3", features = ["blocking"] }
reqwest = { version = "0.12", default-features = false, features = ["blocking", "json", "rustls-tls"] }
serde = { version = "1", features = ["derive"] }
serde_json = "1"
toml = "*"
