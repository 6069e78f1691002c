[package]
name = "rust_scheduler_service"
version = "0.1.0"
edition = "2021"
publish = false

[dependencies]
cron = "*"
chrono = { version = "0.4", features = ["serde"] }
serde = { version = "1", features = ["derive"] }
serde_json = "1"
axum = "0.7"
tokio = { version = "1", features = ["full"] }
async-trait = "*"
sqlx = { version = "*", default-features = false, features = ["runtime-tokio", "postgres", "chrono"] }
axum-tracing-opentelemetry = "*"
tracing-subscriber = "*"
config = { version = "*", default-features = false, features = ["toml"] }
