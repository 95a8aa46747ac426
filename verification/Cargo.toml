[package]
name = "text2svg"
version = "0.1.0"
edition = "2021"
publish = false

[dependencies]
anyhow = "*"
clap = { version = "*", features = ["derive"] }
font-kit = "*"
rustybuzz = "*"
svg = "*"
syntect = { version = "*", default-features = false, features = ["default-fancy"] }
