[package]
name = "sfbinpack"
version = "0.1.0"
edition = "2021"
publish = false

[dependencies]
arrayvec = "0.7"
thiserror = "1"
rand = "0.8"
pyo3 = "0.20"
numpy = "0.20"
