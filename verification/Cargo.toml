[package]
name = "vibe_gba"
version = "0.1.0"
edition = "2021"
publish = false

[dependencies]
zip = { version = "2", default-features = false, features = ["deflate"] }
serde = { version = "1", features = ["derive"] }
serde-big-array = "0.5"
bincode = "1"
minifb = "*"
png = "*"
