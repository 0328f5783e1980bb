[package]
name = "news_site"
version = "0.1.0"
edition = "2021"
publish = false

[dependencies]
slug = "=0.1.6"
serde = { version = "=1.0.229", features = ["derive"] }
serde_json = "=1.0.154"
chrono = { version = "=0.4.45", features = ["serde"] }
anyhow = "=1.0.104"
axum = "=0.7.9"
tokio = { version = "=1.54.1", features = ["full"] }
redis = { version = "=0.25.5", features = ["tokio-comp"] }
tower-http = { version = "=0.5.2", features = ["fs"] }
tracing = "=0.1.44"
tracing-subscriber = { version = "=0.3.23", features = ["env-filter"] }
dotenvy = "=0.15.7"
clap = { version = "=4.6.7", features = ["derive"] }
reqwest = { version = "=0.12.28", default-features = false, features = ["json"] }
toml = "=0.8.23"
colored = "=2.2.0"
comfy-table = "=7.2.2"
sqlx = { version = "0.7", default-features = false, features = ["sqlite", "runtime-tokio", "chrono"] }
