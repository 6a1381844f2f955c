[package]
name = "ipatool"
version = "0.1.0"
edition = "2021"
publish = false

[dependencies]
zip = { version = "2", default-features = false, features = ["deflate"] }
plist = "1"
base64 = "0.22"
hex = "0.4"
sha2 = "0.10"
bcrypt = "0.15"
urlencoding = "2"
serde = { version = "1", features = ["derive"] }
serde_json = "1"
