[package]
name = "snowmew-render"
version = "0.1.0"
edition = "2021"
publish = false

[dependencies]
cgmath = "=0.18.0"
gl = "=0.14.0"
image = { version = "=0.25.10", default-features = false, features = ["png"] }
libc = "=0.2.191"
time = "=0.1.45"
