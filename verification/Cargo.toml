[package]
name = "index_controller"
version = "0.1.0"
edition = "2021"
publish = false

[dependencies]
actix-web = { version = "4", default-features = false }
anyhow = "1"
chrono = { version = "0.4", features = ["serde"] }
futures = "0.3"
log = "0.4"
milli = "*"
serde = { version = "1", features = ["derive"] }
serde_json = "1"
tokio = { version = "1", features = ["sync", "rt"] }
uuid = { version = "1", features = ["v4", "serde"] }
