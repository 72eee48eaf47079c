[package]
name = "celestial_overlay"
version = "0.1.0"
edition = "2021"
publish = false

[dependencies]
chrono = "=0.4.45"
rand = "=0.8.8"
regex = "=1.13.1"
serde_json = "=1.0.154"
image = { version = "=0.25.10", default-features = false, features = ["jpeg", "png", "gif"] }
reqwest = { version = "=0.11.27", features = ["blocking", "json"] }
wallpaper = { version = "=3.2.0", features = ["from_url"] }
egui = "=0.29.1"
egui_commonmark = "0.18"
egui_overlay = "=0.9.0"
egui_window_glfw_passthrough = "=0.9.0"
egui_render_three_d = "=0.9.0"
