[package]
name = "hext"
version = "0.1.0"
edition = "2021"
publish = false

[dependencies]
bitvec = "=1.0.1"
getopts = "0.2"
