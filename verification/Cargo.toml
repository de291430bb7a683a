[package]
name = "http_metrics"
version = "0.1.0"
edition = "2021"
publish = false

[dependencies]
regex = "1"
axum = "0.8"
tokio = { version = "1", features = ["full"] }
http = "1"
http-body = "1"
pin-project = "1"
serde = { version = "1", features = ["derive"] }
serde_json = "1"
sqlx = { version = "0.8", default-features = false, features = ["mysql", "runtime-tokio", "json"] }
deadpool-redis = "*"
chrono = "0.4"
flexi_logger = "*"
reqwest = { version = "*", default-features = false, features = ["json"] }
thiserror = "*"
tracing = "0.1"
tracing-appender = "0.2"
tracing-subscriber = { version = "0.3", features = ["env-filter"] }
once_cell = "1"
lazy_static = "1"
