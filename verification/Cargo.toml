[package]
name = "chrysocolle"
version = "0.1.0"
edition = "2021"
publish = false

[dependencies]
crc32fast = "1"
serde = { version = "1", features = ["derive"] }
toml = "*"
fs_extra = "1"
rfd = "*"

[dev-dependencies]
regex = "1"
