[package]
name = "mooncat"
version = "0.1.0"
edition = "2021"
publish = false

[dependencies]
hex = "0.4"
image = { version = "0.25", default-features = false, features = ["png"] }
