[package]
name = "gesso"
version = "0.1.0"
edition = "2021"
publish = false

[dependencies]
anyhow = "=1.0.104"
clap = { version = "=4.6.7", features = ["derive"] }
dirs = "=7.0.0"
eventline = "=0.10.0"
image = { version = "=0.25.10", default-features = false, features = ["png", "jpeg"] }
libc = "=0.2.191"
memmap2 = "=0.9.12"
serde = { version = "=1.0.229", features = ["derive"] }
serde_json = "1"
tempfile = "=3.27.0"
tokio = { version = "=1.54.1", features = ["rt"] }
wayland-client = "=0.31.15"
wayland-protocols-wlr = { version = "=0.3.12", features = ["client"] }
zbus = "5"
