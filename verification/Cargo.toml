[package]
name = "cactuserve_sessions"
version = "0.1.0"
edition = "2021"
publish = false

[dependencies]
ring = "0.17"
chacha20 = "0.9"
base64 = "0.22"
crc32fast = "1"
pem = "3"
postcard = { version = "1", features = ["alloc"] }
serde = { version = "1", features = ["derive"] }
maud = "0.26"
anyhow = "1"
thiserror = "1"
