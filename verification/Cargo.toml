[package]
name = "dcrs"
version = "0.1.0"
edition = "2021"
publish = false

[dependencies]
bigdecimal = "0.4"
clap = { version = "4", features = ["derive"] }
colored = "2"
