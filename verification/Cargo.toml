[package]
name = "swerl"
version = "0.1.0"
edition = "2021"
publish = false

[dependencies]
uuid = { version = "*", features = ["v4"] }
tokio = { version = "*", features = ["sync", "rt", "rt-multi-thread", "macros"] }
async-trait = "*"
thiserror = "*"
