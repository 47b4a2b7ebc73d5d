[package]
name = "socha_client_2024"
version = "0.1.0"
edition = "2021"
publish = false

[dependencies]
quick-xml = "*"
rand = "0.8"
log = "*"
simplelog = "*"
clap = { version = "4", features = ["derive"] }
