[package]
name = "termwindow_render"
version = "0.1.0"
edition = "2021"
publish = false

[dependencies]
anyhow = "1"
euclid = "0.22"
glium = { version = "0.35", default-features = false }
log = "0.4"
metrics = "0.24"
smol = "2"
wgpu = "25"
winapi = { version = "0.3", features = ["dwmapi", "handleapi", "ntdef", "synchapi", "timeapi", "winbase", "winnt"] }
