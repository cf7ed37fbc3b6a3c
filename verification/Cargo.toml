[package]
name = "portal_worlds"
version = "0.1.0"
edition = "2021"
publish = false

[dependencies]
rapier3d = "0.17"
nalgebra = "0.32"
crossbeam = "0.8"
wgpu = "0.16"
anyhow = "1"
log = "0.4"
