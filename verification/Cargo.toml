[package]
name = "zord"
version = "0.1.0"
edition = "2021"
publish = false

[dependencies]
ropey = "=1.6.1"
chrono = "=0.4.45"
eframe = { version = "=0.34.3", default-features = false, features = ["wgpu", "default_fonts", "x11"] }
ignore = "=0.4.34"
memmap2 = "=0.9.12"
log = "=0.4.35"
env_logger = "=0.11.11"
