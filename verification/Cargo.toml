[package]
name = "turing_sim"
version = "0.1.0"
edition = "2021"
publish = false

[dependencies]
regex = "*"
csv = "*"
colored = "*"
prettytable-rs = "*"
