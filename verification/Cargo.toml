[package]
name = "render_wgpu"
version = "0.1.0"
edition = "2021"
publish = false

[dependencies]
wgpu = "26"
glam = "0.30"
hw-skymodel = "*"
bytemuck = { version = "1", features = ["derive"] }
serde = { version = "1", features = ["derive"] }
serde_json = "1"
rand = "0.9"
rand_chacha = "0.9"
anyhow = "1"
pollster = "0.4"
log = "0.4"
