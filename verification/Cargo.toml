[package]
name = "join"
version = "0.1.0"
edition = "2021"
publish = false

[dependencies]
uuid = { version = "1", features = ["v4"] }
chrono = "0.4"
ics = "0.5"
axum = "0.6"
axum-server = { version = "0.5", features = ["tls-rustls"] }
tokio = { version = "1", features = ["full"] }
minijinja = { version = "1", features = ["loader"] }
r2d2 = "0.8"
r2d2_sqlite = { version = "0.22", features = ["bundled"] }
serde = { version = "1", features = ["derive"] }
