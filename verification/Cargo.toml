[package]
name = "mdbook-section-validator"
version = "0.1.0"
edition = "2021"
publish = false

[dependencies]
url = "=2.5.8"
clap = "=2.34.0"
mdbook = { version = "=0.4.52", default-features = false }
reqwest = { version = "=0.11.27", default-features = false, features = ["blocking", "json", "rustls-tls"] }
serde = { version = "=1.0.229", features = ["derive"] }
serde_json = "=1.0.154"
toml = "=0.5.11"

[dev-dependencies]
regex = "=1.13.1"
