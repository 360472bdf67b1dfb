[package]
name = "particle_areas"
version = "0.1.0"
edition = "2021"
publish = false

[dependencies]
anyhow = "*"
image = "*"
imageproc = "*"
plotters = "*"
