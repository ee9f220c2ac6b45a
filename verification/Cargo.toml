[package]
name = "point_glass_opengl"
version = "0.1.0"
edition = "2021"
publish = false

[dependencies]
gl = "0.14"
libc = "0.2"
