[package]
name = "projects_api"
version = "0.1.0"
edition = "2021"
publish = false

[dependencies]
uuid = { version = "=1.27.0", features = ["v4", "serde"] }
serde = { version = "=1.0.229", features = ["derive"] }
axum = "=0.5.17"
tokio = { version = "=1.53.2", features = ["full"] }
sqlx = { version = "=0.6.3", features = ["runtime-tokio-rustls", "postgres", "json", "uuid"] }
aws-sdk-s3 = "=1.152.0"
anyhow = "=1.0.104"
clap = { version = "=3.2.25", features = ["derive"] }
dotenv = "=0.15.0"
tracing = "=0.1.44"
tracing-subscriber = { version = "=0.3.23", features = ["env-filter"] }
