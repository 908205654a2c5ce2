[package]
name = "wecs"
version = "0.1.0"
edition = "2021"
publish = false

[dependencies]
cgmath = "0.18"
vulkano = "0.26"
vulkano-win = "0.26"
winit = "0.25"
