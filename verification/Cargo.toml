[package]
name = "raytracer"
version = "0.1.0"
edition = "2021"
publish = false

[dependencies]
libm = "0.2"
lodepng = "=3.12.2"
rand = "=0.8.8"
rgb = "=0.8.53"
