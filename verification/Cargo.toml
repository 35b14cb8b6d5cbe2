[package]
name = "relational_algebra"
version = "0.1.0"
edition = "2021"
publish = false

[dependencies]
regex = "1"
simple_dot = "*"
