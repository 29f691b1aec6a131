[package]
name = "svd"
version = "0.1.0"
edition = "2021"
publish = false

[dependencies]
xml-rs = "0.8"
getopts = "0.2"
