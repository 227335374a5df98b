[package]
name = "gravity_circles"
version = "0.1.0"
edition = "2021"
publish = false

[dependencies]
macroquad = "*"
rand = "0.8"
