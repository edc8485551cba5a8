[package]
name = "macro_recorder"
version = "0.3.0"
edition = "2021"
publish = false

[dependencies]
base64 = "0.22"
chrono = { version = "0.4", default-features = false, features = ["clock", "std"] }
hex = "0.4"
hmac = "0.12"
sha2 = "0.10"
uuid = { version = "1", features = ["v4"] }
rand = "0.8"
image = { version = "0.25", default-features = false, features = ["png"] }
serde = { version = "1", features = ["derive"] }
serde_json = "1"
dirs = "5"
once_cell = "1"
tokio = { version = "1", default-features = false, features = ["rt-multi-thread", "time"] }
rhai = { version = "1", default-features = false, features = ["std"] }
