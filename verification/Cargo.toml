[package]
name = "oxide_desktop"
version = "0.1.0"
edition = "2021"
publish = false

[dependencies]
smithay = { version = "0.7", default-features = false, features = ["desktop", "wayland_frontend", "xwayland"] }
xcursor = "0.3"
cosmic-text = "*"
gtk4 = "*"
gtk4-layer-shell = "*"
tracing = "0.1"
tracing-subscriber = { version = "0.3", features = ["env-filter"] }
