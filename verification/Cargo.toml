[package]
name = "xiangqi_rim"
version = "0.1.0"
edition = "2021"
publish = false

[dependencies]
wgpu = "24"
pollster = "0.4"
opencl3 = "*"
libc = "0.2"
