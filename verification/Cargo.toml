[package]
name = "tineplayer"
version = "0.1.0"
edition = "2021"
publish = false

[dependencies]
gstreamer = "*"
gstreamer-app = "*"
rustfft = "6"
