[package]
name = "dwx"
version = "0.1.0"
edition = "2021"
publish = false

[dependencies]
blake3 = { version = "*", features = ["pure"] }
crossterm = "*"
devicons = "*"
dirs = "*"
flate2 = "*"
ignore = "*"
is_executable = "*"
regex = "*"
syntect = { version = "*", default-features = false, features = ["default-fancy"] }
tar = "*"
