[package]
name = "credence"
version = "0.1.0"
edition = "2021"
publish = false

[dependencies]
regex = "=1.13.1"
markdown = "=1.0.0"
compris = "=0.0.11"
kutil = { version = "=0.0.6", features = ["std", "http"] }
duration-str = "=0.21.0"
dateparser = "=0.3.1"
chrono = "=0.4.45"
httpdate = "=1.0.3"
axum = "=0.8.9"
tokio = { version = "=1.54.1", features = ["full"] }
tower-http = { version = "=0.7.1", features = ["fs", "trace", "limit", "timeout"] }
tracing = "=0.1.44"
minijinja = { version = "=2.24.0", features = ["loader"] }
serde = { version = "=1.0.229", features = ["derive"] }
mimalloc = "=0.1.52"
