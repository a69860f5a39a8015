[package]
name = "ejdict"
version = "0.1.0"
edition = "2021"
publish = false

[dependencies]
clap = "*"
lazy_static = "*"
prettytable-rs = "*"
serde = { version = "*", features = ["derive"] }
serde_json = "*"
