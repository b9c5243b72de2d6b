[package]
name = "cert_expiry"
version = "0.1.0"
edition = "2021"
publish = false

[dependencies]
askama = "0.12"
axum = "0.7"
chrono = "0.4"
clap = { version = "4", features = ["derive"] }
rustls = { version = "0.23", default-features = false, features = ["logging", "ring", "std", "tls12"] }
tokio = { version = "1", features = ["full"] }
tokio-rustls = { version = "0.26", default-features = false, features = ["logging", "ring", "tls12"] }
webpki-roots = "0.26"
x509-parser = "0.16"
