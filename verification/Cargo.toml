[package]
name = "kom"
version = "0.1.0"
edition = "2021"
publish = false

[dependencies]
anyhow = "1"
clap = { version = "3.2", features = ["derive"] }
log = "0.4"
rand = "0.8"
simplelog = "0.12"
termion = "1.5"
