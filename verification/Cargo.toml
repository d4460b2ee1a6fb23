[package]
name = "ntpclient"
version = "0.1.0"
edition = "2021"
publish = false

[dependencies]
byteorder = "1"
time = "0.1"
