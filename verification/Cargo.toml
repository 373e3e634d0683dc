[package]
name = "winit-wayland"
version = "0.1.0"
edition = "2021"
publish = false

[dependencies]
calloop = "=0.14.5"
raw-window-handle = "=0.6.2"
rustix = { version = "=1.1.5", features = ["event", "pipe"] }
smithay-client-toolkit = { version = "=0.21.1", default-features = false, features = ["calloop"] }
tracing = { version = "=0.1.44", default-features = false, features = ["std"] }
wayland-backend = { version = "=0.3.17", features = ["client_system", "dlopen"] }
