[package]
name = "mojang"
version = "0.1.0"
edition = "2021"
publish = false

[dependencies]
sha1 = "0.10"
ureq = "2"
serde = { version = "1", features = ["derive"] }
serde_json = "1"
base64 = "0.13"
urlencoding = "2"
uuid = "1"
tinyjson = "2"
