[package]
name = "testcontainers"
version = "0.1.0"
edition = "2021"
publish = false

[dependencies]
async-trait = "*"
futures = "*"
tokio = { version = "*", features = ["time", "rt-multi-thread", "macros"] }
