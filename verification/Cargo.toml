[package]
name = "visualcoder"
version = "0.1.0"
edition = "2021"
publish = false

[dependencies]
base64 = "0.21"
chrono = "0.4"
dirs = "5"
image = { version = "0.24", default-features = false, features = ["jpeg", "png"] }
rdev = "0.5"
serde = { version = "1", features = ["derive"] }
windows-capture = "1.5"
