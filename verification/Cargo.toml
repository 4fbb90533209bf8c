[package]
name = "frame"
version = "0.1.0"
edition = "2021"
publish = false

[dependencies]
eframe = { version = "0.35", default-features = false, features = ["default_fonts", "wayland", "wgpu"] }
image = { version = "0.25", default-features = false, features = ["png"] }
jiff = "0.2"
memmap2 = "0.9"
rustix = { version = "1", features = ["fs"] }
serde_json = "1"
tiny-skia = "0.11"
wayland-client = "0.31"
wayland-protocols-wlr = { version = "0.3", features = ["client"] }
wl-clipboard-rs = "0.9"
