[package]
name = "bluetooth_mesh"
version = "0.1.0"
edition = "2021"
publish = false

[dependencies]
aes = "=0.7.5"
cmac = "=0.6.0"
crypto-mac = "=0.11.1"
rand = { version = "=0.8.8", features = ["min_const_gen"] }
clap = "=2.34.0"
