[package]
name = "ae_gpu_lab"
version = "0.1.0"
edition = "2021"
publish = false

[dependencies]
after-effects = "*"
anyhow = "=1.0.104"
bytemuck = { version = "=1.25.2", features = ["derive"] }
clap = { version = "=4.6.7", features = ["derive"] }
libloading = "=0.8.9"
pollster = "=0.4.0"
wgpu = "=25.0.2"
