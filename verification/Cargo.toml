[package]
name = "auth_service"
version = "0.1.0"
edition = "2021"
publish = false

[dependencies]
argon2 = "*"
validator = "*"
hmac = "*"
sha2 = "*"
rand = "*"
serde = { version = "*", features = ["derive"] }
serde_json = "*"
redis = "*"
sqlx = { version = "*", default-features = false, features = ["runtime-tokio", "postgres", "migrate"] }
tokio = { version = "*", features = ["rt-multi-thread", "macros", "net"] }
axum = "*"
axum-extra = { version = "*", features = ["cookie"] }
tower-http = { version = "*", features = ["fs", "cors"] }
async-trait = "*"
