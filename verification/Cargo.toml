[package]
name = "doomfire"
version = "0.1.0"
edition = "2021"
publish = false

[dependencies]
rand = "=0.8.8"
pixels = "=0.13.0"
winit = "=0.28.7"
