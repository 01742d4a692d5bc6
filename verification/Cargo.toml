[package]
name = "tseries"
version = "0.1.0"
edition = "2021"
publish = false

[dependencies]
finitediff = "0.1"
liblbfgs = "0.1"
nalgebra = "0.32"
rand = "0.8"
rand_distr = "0.4"
tracing = "0.1"
