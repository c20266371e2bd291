[package]
name = "todo_api"
version = "0.1.0"
edition = "2021"
publish = false

[dependencies]
anyhow = "1"
axum = "*"
dotenv = "0.15"
http = "*"
serde = { version = "1", features = ["derive"] }
sqlx = { version = "*", features = ["runtime-tokio", "postgres"] }
thiserror = "*"
tokio = { version = "1", features = ["rt-multi-thread", "macros", "net"] }
tower-http = { version = "*", features = ["cors"] }
tracing = "0.1"
tracing-subscriber = "0.3"
