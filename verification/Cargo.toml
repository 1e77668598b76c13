[package]
name = "memtty"
version = "0.1.0"
edition = "2021"
publish = false

[dependencies]
vte = "*"
unicode-width = "*"
glyphon = "*"
wgpu = "*"
winit = "*"
pollster = "*"
portable-pty = "*"
tokio = { version = "*", features = ["sync", "rt"] }
arboard = "*"
bytemuck = { version = "*", features = ["derive"] }
smol_str = "*"
