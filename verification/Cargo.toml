[package]
name = "runic"
version = "0.1.0"
edition = "2021"
publish = false

[dependencies]
glam = "=0.8.7"
minifb = "0.15"
