[package]
name = "hostdni"
version = "0.1.0"
edition = "2021"
publish = false

[dependencies]
rand = "*"
uuid = { version = "*", features = ["v4"] }
actix-web = "*"
actix-cors = "*"
actix-rt = "*"
chrono = "*"
serde = { version = "*", features = ["derive"] }
serde_json = "*"
once_cell = "*"
lazy_static = "*"
tokio = { version = "*", features = ["rt-multi-thread"] }
