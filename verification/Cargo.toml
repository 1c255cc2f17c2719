[package]
name = "pge"
version = "0.1.0"
edition = "2021"
publish = false

[dependencies]
chrono = "0.4"
gl = "0.14"
glfw = "*"
image = "*"
