[package]
name = "subconv"
version = "0.1.0"
edition = "2021"
publish = false

[dependencies]
regex = "1"
voca_rs = "1"
argh = "0.1"
walkdir = "2"
