[package]
name = "fat32"
version = "0.1.0"
edition = "2021"
publish = false

[dependencies]
serial = "0.4"
structopt = "0.3"
xmodem = "*"
