[package]
name = "orchestrator"
version = "0.1.0"
edition = "2021"
publish = false

[dependencies]
actix-web = "4"
bytes = "1"
env_logger = "0.11"
futures = "0.3"
k8s-openapi = { version = "0.28", features = ["latest"] }
r2d2 = "0.8"
r2d2_sqlite = "*"
rusqlite = { version = "*", features = ["bundled"] }
serde = { version = "1", features = ["derive"] }
serde_json = "1"
thiserror = "2"
