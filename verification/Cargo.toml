[package]
name = "rip"
version = "0.1.0"
edition = "2021"
publish = false

[dependencies]
clap = { version = "4", features = ["derive"] }
dunce = "1"
walkdir = "2"
