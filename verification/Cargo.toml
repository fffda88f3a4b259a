[package]
name = "ergothic"
version = "0.1.0"
edition = "2021"
publish = false

[dependencies]
prettytable-rs = { version = "=0.10.0", default-features = false }
unicode-width = "=0.1.14"
