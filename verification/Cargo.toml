[package]
name = "hygg"
version = "0.1.0"
edition = "2021"
publish = false

[dependencies]
anyhow = "1"
async-lock = "3"
axum = "0.7"
chrono = { version = "0.4", features = ["serde"] }
crossterm = "0.27"
dirs = "5"
log = "0.4"
reqwest = { version = "0.12", default-features = false, features = ["json"] }
serde = { version = "1", features = ["derive"] }
serde_json = "1"
sqlx = { version = "0.8", default-features = false, features = ["sqlite", "runtime-tokio", "chrono", "uuid", "derive"] }
thiserror = "1"
tokio = { version = "1", features = ["rt-multi-thread", "macros", "net", "fs", "time"] }
tower-http = { version = "0.5", features = ["cors"] }
tracing-subscriber = "0.3"
uuid = { version = "1", features = ["v4", "serde"] }
