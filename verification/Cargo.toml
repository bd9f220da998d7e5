[package]
name = "chawk"
version = "0.1.0"
edition = "2021"
publish = false

[dependencies]
regex = "1"
clap = { version = "3", features = ["cargo"] }
atty = "0.2"
anyhow = "1"
