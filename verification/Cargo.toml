[package]
name = "cheadermap"
version = "0.1.0"
edition = "2021"
publish = false

[dependencies]
anyhow = "*"
libc = "*"

[dependencies.clap]
version = "*"
features = ["derive"]
