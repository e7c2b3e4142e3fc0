[package]
name = "tune"
version = "0.3.0"
edition = "2021"
publish = false

[dependencies]
chrono = "=0.4.45"
env_logger = "=0.11.11"
libc = "=0.2.191"
librespot = { version = ">=0.7", default-features = false, features = ["rustls-tls-webpki-roots"] }
rspotify = { version = "=0.16.1", default-features = false, features = ["client-ureq", "ureq-rustls-tls"] }
serde = { version = "=1.0.229", features = ["derive"] }
serde_json = "=1.0.154"
serde_yaml = "=0.9.34"
tokio = { version = "1", features = ["rt", "sync", "macros", "time"] }
ureq = "=2.12.1"
webbrowser = "=1.2.6"
