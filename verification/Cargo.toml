[package]
name = "bravie"
version = "0.1.0"
edition = "2021"
publish = false

[dependencies]
nalgebra = "*"
ndarray = "*"
ndrustfft = "*"
num-complex = "*"
roxmltree = "*"
thiserror = "*"
