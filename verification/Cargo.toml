[package]
name = "albedo_rtx"
version = "0.1.0"
edition = "2021"
publish = false

[dependencies]
bytemuck = "1"
glam = "*"
obvhs = "*"
pas = "*"
wgpu = { version = "24", default-features = false }
futures = "0.3"
futures-intrusive = "0.5"
