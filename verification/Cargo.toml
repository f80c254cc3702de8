[package]
name = "fastx_sample"
version = "0.1.0"
edition = "2021"
publish = false

[dependencies]
rand = "0.8"
rand_xoshiro = "0.6"
seq_io = "0.3"
clap = { version = "4", features = ["derive"] }
indicatif = "0.17"
log = "0.4"
simplelog = "0.12"
