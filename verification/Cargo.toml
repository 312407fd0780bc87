[package]
name = "shared_lists"
version = "0.1.0"
edition = "2021"
publish = false

[dependencies]
askama = "0.12"
bson = { version = "2", features = ["chrono-0_4"] }
chrono = "0.4"
mongodb = "2"
serde = { version = "1", features = ["derive"] }
tokio = { version = "1", features = ["full"] }
tokio-stream = "0.1"
warp = "0.3"
