[package]
name = "whenamp"
version = "0.1.0"
edition = "2021"
publish = false

[dependencies]
anyhow = "1"
eframe = { version = "0.37", default-features = false, features = ["default_fonts", "glow", "x11"] }
lofty = "0.22"
rfd = { version = "0.17", default-features = false, features = ["gtk3"] }
rodio = "0.23"
rustfft = "6"
