[package]
name = "glycerin"
version = "0.1.0"
edition = "2021"
publish = false

[dependencies]
regex = "1"
base64 = "0.21"
sha2 = "0.10"
aes-gcm = "0.10"
uuid = { version = "1", features = ["v4"] }
chrono = { version = "0.4", default-features = false, features = ["clock"] }
image = { version = "0.24", default-features = false, features = ["png", "jpeg", "gif", "webp"] }
serde = { version = "1", features = ["derive"] }
serde_json = "1"
tokio = { version = "1", features = ["rt"] }
reqwest = { version = "0.11", default-features = false }
dirs = "5"
libc = "0.2"
ttf-parser = "0.19"
rusqlite = { version = "0.30", features = ["bundled"] }
iced = { version = "0.13", default-features = false }
iced_aw = { version = "0.11", default-features = false, features = ["tabs"] }
