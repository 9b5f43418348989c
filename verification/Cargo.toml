[package]
name = "nshell"
version = "0.1.0"
edition = "2021"
publish = false

[dependencies]
histogram = "0.6"
zstd = "*"
serde = { version = "1", features = ["derive"] }
