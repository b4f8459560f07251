[package]
name = "smart_house"
version = "0.1.0"
edition = "2021"
publish = false

[dependencies]
axum = "0.8"
diesel = { version = "2", features = ["sqlite", "r2d2"] }
dotenv = "0.15"
serde = { version = "1", features = ["derive"] }
tokio = { version = "1", features = ["macros", "rt-multi-thread", "net"] }
