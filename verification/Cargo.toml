[package]
name = "keydock"
version = "0.1.0"
edition = "2021"
publish = false

[dependencies]
hmac = "0.12"
sha2 = "0.10"
subtle = "2"
base64 = "0.22"
percent-encoding = "2"
serde_json = "1"
serde = { version = "1", features = ["derive"] }
serde_urlencoded = "*"
time = { version = "0.3", features = ["std"] }
uuid = { version = "1", features = ["v4"] }
axum = "0.8"
bytes = "1"
tokio = { version = "1", features = ["rt", "macros"] }
tower = "0.5"
tower-http = { version = "0.6", features = ["cors", "trace"] }
tracing = "0.1"
utoipa = "5"
metrics = "*"
metrics-exporter-prometheus = { version = "*", default-features = false }
secrecy = "*"
thiserror = "*"
lazy-limit = "*"
axum-governor = "*"
