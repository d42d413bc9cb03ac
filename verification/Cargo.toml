[package]
name = "role_auth"
version = "0.1.0"
edition = "2021"
publish = false

[dependencies]
futures = "0.3"
haikunator = "0.1"
log = "0.4"
mongodb = "2"
serde = { version = "1", features = ["derive"] }
serde_json = "1"
thiserror = "1"
tokio = { version = "1", features = ["rt", "sync"] }
utoipa = "4"
