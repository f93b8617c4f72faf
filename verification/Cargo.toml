[package]
name = "fanout"
version = "0.1.0"
edition = "2021"
publish = false

[dependencies]
chrono = "*"
relativetime = { version = "*", features = ["chrono"] }
tokio = { version = "*", features = ["rt-multi-thread", "macros", "sync", "net", "time"] }
sqlx = { version = "*", default-features = false, features = ["runtime-tokio", "postgres"] }
axum = "*"
tokio-stream = "*"
serde = { version = "*", features = ["derive"] }
uuid = { version = "*", features = ["v7"] }
