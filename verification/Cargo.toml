[package]
name = "catalog"
version = "0.1.0"
edition = "2021"
publish = false

[dependencies]
anyhow = "1"
axum = "0.4"
dotenv = "0.15"
sea-orm = { version = "0.5", default-features = false, features = ["macros", "runtime-tokio-rustls", "sqlx-postgres"] }
serde = { version = "1", features = ["derive"] }
tera = { version = "1", default-features = false }
tokio = { version = "1", features = ["full"] }
tower = "0.4"
tower-cookies = "0.4"
tower-http = { version = "0.2", features = ["fs"] }
tracing = "0.1"
tracing-subscriber = "0.3"
