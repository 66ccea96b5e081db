[package]
name = "spatial_audio"
version = "0.1.0"
edition = "2021"
publish = false

[dependencies]
anyhow = "1"
cpal = "0.15"
fundsp = "*"
hound = "3"
hrtf = "0.8"
macroquad = "0.4"
