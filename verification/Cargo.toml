[package]
name = "fm_transmit"
version = "0.1.0"
edition = "2021"
publish = false

[dependencies]
clap = { version = "*", features = ["derive"] }
hound = "*"
itertools = "*"
num-complex = "*"
num-traits = "*"
