[package]
name = "smallpt"
version = "0.1.0"
edition = "2021"
publish = false

[dependencies]
bvh = "0.6"
minifb = "*"
num_cpus = "1"
rand = "0.8"
rayon = "1"
structopt = "0.3"
