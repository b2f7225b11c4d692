[package]
name = "render_core"
version = "0.1.0"
edition = "2021"
publish = false

[dependencies]
ash = "=0.37.3"
ash-window = "=0.12.0"
gpu-allocator = "=0.22.0"
image = "=0.24.9"
nalgebra = "=0.32.6"
raw-window-handle = "0.5"
vk-shader-macros = "=0.2.11"
winit = "=0.28.7"
