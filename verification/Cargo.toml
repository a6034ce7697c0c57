[package]
name = "packarc"
version = "0.1.0"
edition = "2021"
publish = false

[dependencies]
flate3 = "*"
xz2 = "*"
