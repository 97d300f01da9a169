[package]
name = "mcp"
version = "0.1.0"
edition = "2021"
publish = false

[dependencies]
multiqueue2 = "*"
clap = { version = "3", features = ["derive"] }
question = "*"
