[package]
name = "battery_status"
version = "0.1.0"
edition = "2021"
publish = false

[dependencies]
anyhow = "1"
log = "0.4"
simplelog = "0.12"
winit = "0.30"
tray-icon = "0.21"
softbuffer = "0.4"
tiny-skia = "0.11"
fontdue = "0.9"
winreg = "0.52"
