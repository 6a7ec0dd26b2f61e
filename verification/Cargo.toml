[package]
name = "mandelbrot"
version = "0.1.0"
edition = "2021"
publish = false

[dependencies]
rayon = "=1.12.0"
log = "=0.4.34"
env_logger = "=0.9.3"
pixels = "=0.9.0"
winit = "0.26"
winit_input_helper = "0.11"
