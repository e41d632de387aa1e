[package]
name = "kokuban"
version = "0.1.0"
edition = "2021"
publish = false

[dependencies]
unicode-segmentation = "=1.13.3"
unicode-width = "=0.2.3"
toml = "=1.1.8"
winit = "=0.30.13"
softbuffer = "0.4"
nix = { version = "=0.31.3", features = ["fs", "inotify", "poll"] }
arboard = { version = "=3.7.0", default-features = false, features = ["wayland-data-control"] }
log = "=0.4.35"
env_logger = { version = "=0.11.11", default-features = false }
thiserror = "=2.0.21"
