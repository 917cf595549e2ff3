[package]
name = "compbench"
version = "0.1.0"
edition = "2021"
publish = false

[dependencies]
zstd = "*"
clap = { version = "*", features = ["derive"] }
anyhow = "*"
