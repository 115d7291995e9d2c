[package]
name = "planarwm"
version = "0.1.0"
edition = "2021"
publish = false

[dependencies]
xkbcommon = "*"
serde = { version = "1", features = ["derive"] }
serde_json = "1"
hocon-rs = "*"
wayland-client = "*"
wayland-backend = "*"
nix = { version = "*", features = ["poll", "event"] }
image = { version = "*", default-features = false, features = ["png", "jpeg"] }
memmap2 = "*"
rustix = { version = "*", features = ["fs"] }
bytemuck = "*"
