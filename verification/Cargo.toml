[package]
name = "aegistry"
version = "0.1.0"
edition = "2021"
publish = false

[dependencies]
anyhow = "=1.0.104"
chrono = "=0.4.45"
hex = "=0.4.3"
rand = "=0.8.8"
reqwest = { version = "=0.13.5", default-features = false, features = ["json"] }
serde = { version = "=1.0.229", features = ["derive"] }
serde_json = "=1.0.151"
sha2 = "=0.11.0"
tokio = { version = "=1.53.2", features = ["rt-multi-thread", "macros", "time"] }
unicode-normalization = "*"
uuid = { version = "=1.27.0", features = ["v4"] }
