[package]
name = "dockedit"
version = "0.1.0"
edition = "2021"
publish = false

[dependencies]
plist = "*"
dirs = "*"
anyhow = "*"
