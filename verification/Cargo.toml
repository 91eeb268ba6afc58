[package]
name = "tdk"
version = "0.1.0"
edition = "2021"
publish = false

[dependencies]
libc = "=0.2.191"
trace-stream = "=0.1.9"
turbo-vision = "=2.4.2"
