[package]
name = "lc3dbg"
version = "0.1.0"
edition = "2021"
publish = false

[dependencies]
console = "=0.16.6"
failure = "=0.1.8"
lc3-rs = "=0.4.3"
pretty-bytes = "=0.2.2"
regex = "=1.13.1"
