[package]
name = "artgen"
version = "0.1.0"
edition = "2021"
publish = false

[dependencies]
image = "*"
getrandom = "*"
img-parts = "*"
bytes = "*"
color_processing = "*"
structopt = "*"
num_cpus = "*"
