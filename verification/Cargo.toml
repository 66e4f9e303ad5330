[package]
name = "umd"
version = "0.1.0"
edition = "2021"
publish = false

[dependencies]
glam = "*"
rolling-stats = "*"
libc = "*"
tokio = { version = "*", features = ["rt", "rt-multi-thread", "sync", "macros", "fs", "io-util", "time"] }
