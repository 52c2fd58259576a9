[package]
name = "xlstotext"
version = "0.1.0"
edition = "2021"
publish = false

[dependencies]
csv = "1"
calamine = "0.21"
clap = { version = "4", features = ["derive"] }
