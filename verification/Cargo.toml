[package]
name = "buzzer"
version = "0.1.0"
edition = "2021"
publish = false

[dependencies]
ulid = "1"
axum = { version = "0.6", features = ["ws"] }
tokio = { version = "1", features = ["full"] }
serde = { version = "1", features = ["derive"] }
serde_json = "1"
clap = { version = "4", features = ["derive"] }
env_logger = "0.10"
log = "0.4"
log-panics = "2"
thiserror = "1"
futures = "0.3"
tower-http = { version = "0.4", features = ["set-header"] }
