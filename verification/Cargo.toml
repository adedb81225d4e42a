[package]
name = "asset_shelf"
version = "0.1.0"
edition = "2021"
publish = false

[dependencies]
encoding_rs = "*"
image = { version = "*", default-features = false, features = ["png", "jpeg", "gif", "webp", "bmp"] }
log = { version = "*", features = ["std"] }
lru = "*"
roaring = "*"
serde = { version = "*", features = ["derive"] }
sha2 = "*"
slint = { version = "*", default-features = false, features = ["std", "compat-1-2"] }
uuid = { version = "*", features = ["v4"] }

[dev-dependencies]
serde_json = "*"
