[package]
name = "nico_api"
version = "0.1.0"
edition = "2021"
publish = false

[dependencies]
askama = "0.14"
axum = { version = "0.8", default-features = false, features = ["tokio"] }
chrono = { version = "0.4", default-features = false, features = ["clock", "std"] }
futures = "0.3"
serde = { version = "1", features = ["derive"] }
serde_json = "1"
sqlx = { version = "0.8", default-features = false, features = ["derive", "postgres"] }
tokio = { version = "1", features = ["sync"] }
tracing = "0.1"
tracing-subscriber = { version = "0.3", default-features = false, features = ["registry", "std"] }
