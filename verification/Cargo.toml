[package]
name = "was"
version = "0.1.0"
edition = "2021"
publish = false

[dependencies]
libc = "0.2"
structopt = "0.3"
wasmer-runtime = "*"
