[package]
name = "notmux"
version = "0.1.0"
edition = "2021"
publish = false

[dependencies]
jiff = "0.2"
uuid = { version = "1", features = ["v4"] }
serde = { version = "1", features = ["derive"] }
serde_json = "1"
anyhow = "1"
dirs = "6"
libc = "0.2"
portable-pty = "0.9"
reqwest = { version = "0.12", default-features = false, features = ["blocking", "json"] }
