[package]
name = "physarum"
version = "0.1.0"
edition = "2021"
publish = false

[dependencies]
lazy_static = "1"
lerp = "*"
nannou = "0.15"
rand = "0.7"
rand_distr = "0.2"
