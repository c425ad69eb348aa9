[package]
name = "capture_viewer"
version = "0.1.0"
edition = "2021"
publish = false

[dependencies]
bytemuck = "=1.25.2"
clap = { version = "=4.6.7", features = ["derive"] }
drm = "=0.14.1"
gbm = { version = "=0.18.0", default-features = false }
libc = "=0.2.191"
memfile = "=0.3.2"
wayland-backend = "=0.3.17"
wayland-client = "=0.31.15"
wayland-protocols = { version = "=0.32.13", features = ["client", "staging", "unstable"] }

[dev-dependencies]
drm-fourcc = "=2.2.0"
