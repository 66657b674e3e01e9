[package]
name = "lamscript"
version = "0.1.0"
edition = "2021"
publish = false

[dependencies]
rustc_apfloat = "*"
crossterm = "*"
spin_sleep = "*"
