[package]
name = "futurx"
version = "0.1.0"
edition = "2021"
publish = false

[dependencies]
chrono = { version = "=0.4.45", default-features = false, features = ["std", "clock"] }
dotenv = "=0.15.0"
iced = { version = "0.13", default-features = false, features = ["tiny-skia", "canvas", "tokio"] }
serde = { version = "=1.0.229", features = ["derive"] }
tokio = { version = "=1.54.1", features = ["rt-multi-thread", "sync", "time"] }
