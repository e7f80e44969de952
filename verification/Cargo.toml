[package]
name = "dotflex"
version = "0.1.0"
edition = "2021"
publish = false

[dependencies]
clap = "4"
dirs-next = "2"
serde = { version = "1", features = ["derive"] }
serde_yaml = "0.8"
