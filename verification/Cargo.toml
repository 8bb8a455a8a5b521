[package]
name = "atengine"
version = "0.1.0"
edition = "2021"
publish = false

[dependencies]
crossterm = "*"
fast_image_resize = "*"
image = "*"
rayon = "*"
thiserror = "*"
