[package]
name = "course_backend"
version = "0.1.0"
edition = "2021"
publish = false

[dependencies]
hex = "0.4"
serde = { version = "1", features = ["derive"] }
serde_json = "1"
axum = "0.8"
tokio = { version = "1", features = ["rt-multi-thread", "macros", "net"] }
tower-http = { version = "0.6", features = ["cors"] }
sqlx = { version = "0.8", default-features = false, features = ["postgres", "runtime-tokio", "derive"] }
reqwest = { version = "0.12", default-features = false }
dotenv = "0.15"
eyre = "0.6"
color-eyre = "0.6"
chrono = "0.4"
