[package]
name = "keyglow"
version = "0.1.0"
edition = "2021"
publish = false

[dependencies]
lerp = "*"
nalgebra = "*"
noise = "*"
palette = "*"
rand = "=0.9.5"
ringbuffer = "*"
tween = "*"
wooting-rgb = "*"
