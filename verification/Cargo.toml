[package]
name = "bambang"
version = "0.1.0"
edition = "2021"
publish = false

[dependencies]
figlet-rs = "*"
tabled = "*"
