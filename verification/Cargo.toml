[package]
name = "apexsu"
version = "0.1.0"
edition = "2021"
publish = false

[dependencies]
anyhow = "1"
jni = "0.21"
libc = "0.2"
log = "0.4"
regex-lite = "0.1"
serde = { version = "1", features = ["derive"] }
serde_json = "1"
zip = { version = "2", default-features = false, features = ["deflate"] }
