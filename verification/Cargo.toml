[package]
name = "slothy"
version = "0.1.0"
edition = "2021"
publish = false

[dependencies]
chrono = "0.4"
serde = { version = "1", features = ["derive"] }
actix-web = "4"
sqlx = { version = "0.7", features = ["sqlite", "runtime-tokio"] }
anyhow = "1"
dotenv = "0.15"
env_logger = "0.10"
log = "0.4"
