[package]
name = "local_images_server"
version = "0.1.0"
edition = "2021"
publish = false

[dependencies]
anyhow = "*"
axum = "*"
clap = { version = "*", features = ["derive"] }
getrandom = "*"
hex = "*"
sha2 = "*"
tempfile = "*"
tokio = { version = "*", features = ["rt", "net", "io-util", "fs", "macros"] }
tokio-util = { version = "*", features = ["io"] }
zstd = "*"
