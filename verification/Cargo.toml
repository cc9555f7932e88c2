[package]
name = "disastris"
version = "0.2.0"
edition = "2021"
publish = false

[dependencies]
rand = "0.8"
itertools = "0.11"
clap = { version = "4.4", features = ["derive"] }
