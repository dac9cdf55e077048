[package]
name = "socle"
version = "0.1.0"
edition = "2021"
publish = false

[dependencies]
api-bones = { version = "=4.7.0", features = ["http", "axum"] }
uuid = { version = "=1.29.0", features = ["v4", "v7"] }
governor = "=0.10.4"
http = "=1.5.0"
chrono = "=0.4.45"
serde = { version = "=1.0.229", features = ["derive"] }
serde_json = "=1.0.154"
axum = "=0.8.9"
tower = { version = "=0.5.3", features = ["util"] }
tower-http = { version = "=0.6.11", features = ["cors", "request-id", "trace", "catch-panic", "compression-gzip", "limit"] }
tokio = { version = "=1.54.1", features = ["full"] }
tracing = "=0.1.44"
tracing-subscriber = { version = "=0.3.23", features = ["env-filter", "fmt"] }
figment = { version = "=0.10.19", features = ["toml", "env"] }
thiserror = "=2.0.21"
utoipa = "=5.5.0"
dotenvy = "=0.15.7"
validator = "=0.20.0"
