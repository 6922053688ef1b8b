[package]
name = "pole_cart"
version = "0.1.0"
edition = "2021"
publish = false

[dependencies]
rand = "0.8"

[dev-dependencies]
approx = "0.5"
rand_chacha = "0.3"
