[package]
name = "waiter"
version = "0.1.0"
edition = "2021"
publish = false

[dependencies]
rouille = "*"
clap = { version = "*", features = ["derive"] }
