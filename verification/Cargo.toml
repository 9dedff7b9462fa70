[package]
name = "cutergames"
version = "0.1.0"
edition = "2021"
publish = false

[dependencies]
ataxx = "=0.1.0"
