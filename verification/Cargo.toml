[package]
name = "diskus"
version = "0.1.0"
edition = "2021"
publish = false

[dependencies]
atty = "*"
clap = "*"
crossbeam-channel = "*"
humansize = "*"
num_cpus = "*"
num-format = "*"
rayon = "*"
