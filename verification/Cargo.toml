[package]
name = "quadratic_funding"
version = "0.1.0"
edition = "2021"
publish = false

[dependencies]
integer-sqrt = "0.1"
frame-support = "*"
frame-system = "*"
