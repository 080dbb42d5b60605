[package]
name = "mcstat"
version = "0.1.0"
edition = "2021"
publish = false

[dependencies]
colored = "*"
mcping = "*"
clap = { version = "*", features = ["derive"] }
base64 = "*"
image = "*"
termimage = "*"
