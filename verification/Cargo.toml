[package]
name = "medialog"
version = "0.1.0"
edition = "2021"
publish = false

[dependencies]
colored = "*"
dirs = "*"
edit = "*"
json = "*"
strsim = "*"
