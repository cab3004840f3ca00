[package]
name = "source_symbol"
version = "0.1.0"
edition = "2021"
publish = false

[dependencies]
bstr = "1"
regex = "1"
