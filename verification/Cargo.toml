[package]
name = "durable_workflows"
version = "0.1.0"
edition = "2021"
publish = false

[dependencies]
async-trait = "0.1"
base64 = "=0.22.1"
chrono = "=0.4.45"
chrono-tz = "=0.10.4"
cron = "=0.17.0"
diesel = { version = "=2.3.14", default-features = false, features = ["32-column-tables", "chrono", "postgres_backend"] }
diesel-async = { version = "=0.9.2", features = ["postgres", "bb8", "migrations"] }
diesel_migrations = "=2.3.2"
proc-macro2 = "1"
quote = "1"
serde = { version = "1", features = ["derive"] }
serde_json = "=1.0.154"
sha2 = "=0.10.9"
syn = { version = "2", features = ["full", "extra-traits"] }
thiserror = "*"
tokio = { version = "1", features = ["macros", "rt-multi-thread", "sync", "time"] }
tokio-util = "*"
tracing = "0.1"
utoipa = "5"
uuid = { version = "=1.29.0", features = ["v4"] }
