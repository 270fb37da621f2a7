[package]
name = "easytier_service"
version = "0.1.0"
edition = "2021"
publish = false

[dependencies]
anyhow = "1"
clap = { version = "4", features = ["derive"] }
encoding = "0.2"
fastrand = "2"
git-version = "0.3"
once_cell = "1"
parking_lot = "0.12"
reqwest = { version = "0.12", features = ["json"] }
salvo = "*"
serde = { version = "1", features = ["derive"] }
tokio = { version = "1", features = ["full"] }
tracing = "0.1"
tracing-subscriber = "0.3"
zip = { version = "2", default-features = false, features = ["deflate"] }
