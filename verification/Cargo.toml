[package]
name = "iap_tool"
version = "0.1.0"
edition = "2021"
publish = false

[dependencies]
probe-rs = "=0.32.0"
serde = { version = "=1.0.229", features = ["derive"] }
serde_json = "=1.0.154"
log = "=0.4.34"
simple_logger = "=5.2.0"
eframe = { version = "=0.37.0", default-features = false, features = ["default_fonts", "glow", "x11"] }
egui = { version = "=0.37.0", default-features = false }
rfd = { version = "=0.17.2", default-features = false, features = ["xdg-portal"] }
