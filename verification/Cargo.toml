[package]
name = "coppo"
version = "0.1.0"
edition = "2021"
publish = false

[dependencies]
clap = { version = "=4.6.7", features = ["cargo", "string"] }
colored = "=3.1.1"
