[package]
name = "artinchip_flash"
version = "0.1.0"
edition = "2021"
publish = false

[dependencies]
clap = { version = "=4.6.7", features = ["derive"] }
crc32fast = "=1.5.4"
eframe = { version = "=0.29.1", default-features = false, features = ["default_fonts", "glow", "x11"] }
fs2 = "=0.4.3"
rfd = { version = "0.15", default-features = false, features = ["xdg-portal", "tokio"] }
rusb = "=0.9.4"
serialport = { version = "=4.10.1", default-features = false }
