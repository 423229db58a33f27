[package]
name = "dedede"
version = "0.1.0"
edition = "2021"
publish = false

[dependencies]
ultraviolet = "0.9"
winit = "0.28"
softbuffer = "0.3"
stl_io = "0.7"
tobj = "4"
image = { version = "0.24", default-features = false, features = ["png", "jpeg"] }
