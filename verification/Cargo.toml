[package]
name = "jmc"
version = "0.1.0"
edition = "2021"
publish = false

[dependencies]
ruma = { version = "*", features = ["rand"] }
serde_json = "*"
serde = { version = "*", features = ["derive"] }
dirs = "*"
anyhow = "*"
