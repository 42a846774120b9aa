[package]
name = "infinigpu"
version = "0.1.0"
edition = "2021"
publish = false

[dependencies]
ash = "0.38"
ash-window = "0.13"
env_logger = "0.11"
libc = "0.2"
log = "0.4"
openh264 = "*"
raw-window-handle = "0.6"
tungstenite = "*"
winit = "0.30"

[dev-dependencies]
loom = "0.7"
