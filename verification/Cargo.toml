[package]
name = "webx_metrics_pro"
version = "0.1.0"
edition = "2021"
publish = false

[dependencies]
dashmap = "6"
argon2 = "0.5"
uuid = { version = "1", features = ["v4"] }
chrono = "0.4"
base64 = "0.22"
rand = "0.8"
jsonwebtoken = "9"
serde = { version = "1", features = ["derive"] }
serde_json = "1"
axum = "0.7"
tokio = { version = "1", features = ["full"] }
sqlx = { version = "0.7", default-features = false, features = ["sqlite", "runtime-tokio"] }
tower-http = { version = "0.5", features = ["compression-gzip", "cors", "limit", "fs", "trace"] }
tracing = "0.1"
tracing-subscriber = { version = "0.3", features = ["env-filter", "json"] }
dotenvy = "0.15"
anyhow = "1"
once_cell = "1"
prometheus = "0.13"
axum-prometheus = "0.6"
