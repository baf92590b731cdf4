[package]
name = "reddt-ingest"
version = "0.1.0"
edition = "2021"
publish = false

[dependencies]
rand = "0.7"
reqwest = { version = "0.12", default-features = false, features = ["blocking", "rustls-tls"] }
serde = { version = "1", features = ["derive"] }
serde_derive = "1"
serde_json = "1"
toml = "*"
