[package]
name = "keydispatch"
version = "0.1.0"
edition = "2021"
publish = false

[dependencies]
crokey = "*"
crossterm = "*"
