[package]
name = "ignition"
version = "0.1.0"
edition = "2021"
publish = false

[dependencies]
dashmap = "6"
soft-aes = "*"
serde = { version = "1", features = ["derive"] }
serde_json = "1"
tokio = { version = "1", features = ["full"] }
axum = "0.7"
socketioxide = { version = "0.15", features = ["state"] }
sqlx = { version = "0.8", default-features = false, features = ["runtime-tokio", "postgres"] }
tower = "0.5"
tower-http = { version = "0.6", features = ["cors"] }
tracing = "0.1"
tracing-subscriber = "0.3"
dotenv = "0.15"
chrono = "0.4"
colored = "2"
http = "1"
aws-config = "1"
aws-sdk-sqs = "1"
rust_socketio = "0.6"
