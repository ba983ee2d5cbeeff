[package]
name = "k2bench"
version = "0.1.0"
edition = "2021"
publish = false

[dependencies]
k2_tree = "*"
rand = "0.8"
rand_distr = "0.4"
csv = "1"
