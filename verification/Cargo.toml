[package]
name = "utility_billing"
version = "0.1.0"
edition = "2021"
publish = false

[dependencies]
chrono = "0.4"
rust_decimal = "1"
serde = { version = "1", features = ["derive"] }
serde_json = "1"
axum = "0.8"
tokio = { version = "1", features = ["full"] }
sea-orm = { version = "1", default-features = false, features = ["macros", "with-chrono", "with-rust_decimal", "with-json", "sqlx-postgres", "runtime-tokio-rustls"] }
tera = { version = "1", default-features = false }
tower-http = { version = "0.6", features = ["cors", "trace", "fs"] }
tracing-subscriber = { version = "0.3", features = ["env-filter"] }
dotenvy = "0.15"
once_cell = "1"
