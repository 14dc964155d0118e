[package]
name = "caper"
version = "0.1.0"
edition = "2021"
publish = false

[dependencies]
fps_counter = "*"
gif = "*"
glium = "*"
image = "*"
obj = "*"
genmesh = "*"
clock_ticks = "*"
time = "*"
