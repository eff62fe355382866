[package]
name = "vault_market"
version = "0.1.0"
edition = "2021"
publish = false

[dependencies]
anyhow = "*"
axum = "*"
chrono = { version = "*", features = ["serde"] }
serde = { version = "*", features = ["derive"] }
serde_json = "*"
sqlx = { version = "*", default-features = false, features = ["postgres", "runtime-tokio", "uuid", "chrono"] }
thiserror = "*"
tower-http = { version = "*", features = ["cors"] }
tracing = "*"
url = "*"
uuid = { version = "*", features = ["v4", "serde"] }
