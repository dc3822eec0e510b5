[package]
name = "discstorage"
version = "0.1.0"
edition = "2021"
publish = false

[dependencies]
tar = "*"
xz2 = "*"
zstd = "*"
serde = { version = "*", features = ["derive"] }
serde_json = "*"
