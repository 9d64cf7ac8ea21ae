[package]
name = "hunkle"
version = "0.1.0"
edition = "2021"
publish = false

[dependencies]
serde = { version = "=1.0.229", features = ["derive"] }
serde_json = "=1.0.154"
base64 = "=0.22.1"
libc = "=0.2.191"
rusqlite = "*"
ureq = "*"
interprocess = "*"
