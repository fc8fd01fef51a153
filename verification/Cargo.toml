[package]
name = "curlywas"
version = "0.1.0"
edition = "2021"
publish = false

[dependencies]
ariadne = "=0.1.5"
