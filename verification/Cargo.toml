[package]
name = "battle"
version = "0.1.0"
edition = "2021"
publish = false

[dependencies]
rand = "0.8"
once_cell = "1"
anyhow = "1"
tracing = "0.1"
