[package]
name = "drift"
version = "0.1.0"
edition = "2021"
publish = false

[dependencies]
smithay = { version = "0.7", default-features = false, features = ["desktop", "renderer_gl", "wayland_frontend"] }
