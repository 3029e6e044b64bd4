[package]
name = "curve_fit"
version = "0.1.0"
edition = "2021"
publish = false

[dependencies]
rustc_apfloat = "=0.2.3"
ndarray = "=0.17.2"
