[package]
name = "fractal"
version = "0.1.0"
edition = "2021"
publish = false

[dependencies]
num = "*"
num_cpus = "*"
sdl2 = "*"
threadpool = "*"
