[package]
name = "i_tantana"
version = "0.1.0"
edition = "2021"
publish = false

[dependencies]
uuid = { version = "=1.27.0", features = ["v4", "serde"] }
axum = "=0.8.9"
tokio = { version = "=1.53.2", features = ["sync", "rt-multi-thread", "macros", "net"] }
serde = { version = "=1.0.229", features = ["derive"] }
utoipa = "=6.0.0"
