[package]
name = "pollcatch"
version = "0.1.0"
edition = "2021"
publish = false

[dependencies]
anyhow = "1"
clap = { version = "4", features = ["derive"] }
humantime = "2"
jfrs = "*"
libc = "0.2"
pin-project-lite = "0.2"
tower-layer = "0.3"
tower-service = "0.3"
