[package]
name = "compute_engine"
version = "0.1.0"
edition = "2021"
publish = false

[dependencies]
vulkano = "0.34"
shaderc = "0.8"
glam = "*"
image = "*"
thiserror = "*"
