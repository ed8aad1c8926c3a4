[package]
name = "clikeys"
version = "0.1.0"
edition = "2021"
publish = false

[dependencies]
itertools = "*"
thiserror = "*"
flate2 = "*"
tar = "*"
