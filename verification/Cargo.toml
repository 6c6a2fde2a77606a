[package]
name = "deskstamp"
version = "0.1.0"
edition = "2021"
publish = false

[dependencies]
chrono = "=0.4.45"
hostname = "=0.4.2"
fontdue = "=0.9.5"
tiny-skia = "=0.11.4"
serde = { version = "=1.0.229", features = ["derive"] }
serde_json = "=1.0.154"
smithay-client-toolkit = { version = "=0.19.2", default-features = false, features = ["calloop"] }
wayland-client = "=0.31.15"
ksni = { version = "=0.3.7", features = ["blocking"] }
rfd = "=0.17.2"
eframe = { version = "=0.37.0", default-features = false, features = ["default_fonts", "glow", "wayland"] }
