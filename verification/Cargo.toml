[package]
name = "dig_capsule"
version = "0.1.0"
edition = "2021"
publish = false

[dependencies]
aes-gcm = "0.10"
crc32fast = "1"
flate2 = "1"
hex = "0.4"
memmap2 = "0.9"
napi = "2"
napi-derive = "2"
serde = { version = "1", features = ["derive"] }
serde_json = "1"
sha2 = "0.10"
smallvec = "1"
tempfile = "3"
thiserror = "1"
