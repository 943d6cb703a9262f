[package]
name = "lumen"
version = "0.1.0"
edition = "2021"
publish = false

[dependencies]
anyhow = "1"
chrono = "0.4"
dirs = "5"
fontdue = "0.9"
image = { version = "0.25", default-features = false, features = ["png"] }
libc = "0.2"
rusqlite = { version = "0.31", features = ["bundled"] }
serde = { version = "1", features = ["derive"] }
serde_json = "1"
softbuffer = "0.4"
tiny-skia = "0.11"
tray-icon = "0.19"
winit = "0.30"
x11rb = { version = "0.13", features = ["screensaver"] }
