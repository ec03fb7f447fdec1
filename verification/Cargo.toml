[package]
name = "fm_application"
version = "0.1.0"
edition = "2021"
publish = false

[dependencies]
sha2 = "*"
zip = { version = "*", default-features = false, features = ["deflate"] }
image = { version = "*", default-features = false, features = ["gif", "png", "jpeg", "webp"] }
quick-xml = "*"
serde = { version = "1", features = ["derive"] }
serde_json = "1"
uuid = { version = "1", features = ["v4"] }
