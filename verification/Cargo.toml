[package]
name = "afc_finder"
version = "0.1.0"
edition = "2021"
publish = false

[dependencies]
idevice = { version = "=0.1.46", default-features = false, features = ["afc", "crashreportcopymobile", "house_arrest", "installation_proxy", "usbmuxd", "ring"] }
plist = "=1.10.3"
chrono = "=0.4.45"
tokio = { version = "=1.54.1", features = ["rt-multi-thread", "sync", "fs", "time", "macros", "io-util"] }
futures-util = "=0.3.34"
log = "=0.4.35"
rfd = "=0.15.4"
egui = "=0.33.3"
eframe = { version = "=0.33.3", default-features = false, features = ["default_fonts", "glow", "wgpu", "x11"] }
egui_logger = "=0.9.3"
wgpu = { version = "=27.0.1", default-features = false }
