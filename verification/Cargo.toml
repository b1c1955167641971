[package]
name = "wave_curve"
version = "0.1.0"
edition = "2021"
publish = false

[dependencies]
integrate = "*"
