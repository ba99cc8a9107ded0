[package]
name = "lenny"
version = "0.1.0"
edition = "2021"
publish = false

[dependencies]
eframe = { version = "0.32", default-features = false, features = ["default_fonts", "glow", "x11", "wayland"] }
env_logger = "*"
getrandom = "0.3"
if-addrs = "*"
log = "0.4"
openh264 = "*"
png = "0.17"
qrcode = { version = "0.14", default-features = false }
socket2 = "*"
