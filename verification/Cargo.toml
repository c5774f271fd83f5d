[package]
name = "asciii"
version = "0.1.0"
edition = "2021"
publish = false

[dependencies]
yaml-rust = "*"
slug = "*"
chrono = "*"
git2 = "*"
tempdir = "*"
term = "*"
