[package]
name = "profidcp"
version = "1.0.2"
edition = "2021"
publish = false

[dependencies]
pnet = "*"
rand = "0.8"
regex = "1"
