[package]
name = "compositor"
version = "0.1.0"
edition = "2021"
publish = false

[dependencies]
anyhow = "=1.0.104"
ash = "=0.38.0"
drm = "=0.14.1"
drm-ffi = "=0.9.1"
gbm = { version = "=0.18.0", default-features = false, features = ["drm-support"] }
log = "=0.4.35"
pretty_env_logger = "=0.5.0"
rustix = "=1.1.6"
skia-safe = { version = "=0.156.0", features = ["vulkan"] }
smithay = { version = "=0.7.0", default-features = false, features = ["backend_drm", "backend_gbm", "backend_gbm_has_fd_for_plane", "backend_vulkan"] }
thiserror = "=2.0.21"
