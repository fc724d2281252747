[package]
name = "mailbox_rs"
version = "0.1.0"
edition = "2021"
publish = false

[dependencies]
xmas-elf = "*"
nb = "*"
spin = "*"
yaml-rust = "*"
shellexpand = "*"
async-std = "*"
futures = "*"
