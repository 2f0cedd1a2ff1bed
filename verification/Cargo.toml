[package]
name = "huer"
version = "0.1.0"
edition = "2021"
publish = false

[dependencies]
url = "*"
reqwest = "*"
tokio = { version = "*", features = ["time", "macros", "rt"] }
secrecy = "*"
