[package]
name = "rustdds"
version = "0.1.0"
edition = "2021"
publish = false

[dependencies]
speedy = "0.8"
