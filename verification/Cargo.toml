[package]
name = "connected"
version = "0.1.0"
edition = "2021"
publish = false

[dependencies]
serde = { version = "=1.0.229", features = ["derive"] }
serde_json = "=1.0.154"
dirs = "=7.0.0"
image = { version = "=0.25.10", default-features = false, features = ["jpeg", "png", "gif", "webp", "bmp", "ico"] }
arboard = "=3.7.0"
base64 = "0.22"
mime_guess = "2"

[dev-dependencies]
uuid = "=1.29.0"
