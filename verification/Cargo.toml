[package]
name = "sony-wf1000xm5"
version = "0.1.0"
edition = "2021"
publish = false

[dependencies]
bluer = { version = "=0.17.4", features = ["bluetoothd", "rfcomm"] }
eframe = { version = "=0.32.3", default-features = false, features = ["default_fonts", "glow", "persistence", "wayland", "x11"] }
env_logger = "=0.11.11"
futures = "=0.3.34"
log = "=0.4.34"
thiserror = "=2.0.21"
tokio = { version = "=1.54.1", features = ["io-util", "macros", "net", "rt", "sync", "time"] }
winit = "=0.30.13"
