[package]
name = "efm"
version = "0.1.0"
edition = "2021"
publish = false

[dependencies]
anyhow = "=1.0.104"
bytemuck = "=1.25.2"
directories = "=6.0.0"
icy-metadata = "=0.6.0"
serde = { version = "=1.0.229", features = ["derive"] }
serde_json = "=1.0.154"
url = "=2.5.8"
tokio = { version = "=1.54.1", features = ["rt", "rt-multi-thread"] }
egui = "=0.37.0"
egui-winit = { version = "=0.37.0", default-features = false, features = ["x11"] }
egui_software_backend = "=0.0.3"
winit = { version = "=0.30.13", default-features = false, features = ["rwh_06", "x11"] }
softbuffer = { version = "=0.4.8", default-features = false, features = ["x11"] }
rodio = { version = "=0.23.0", default-features = false, features = ["playback"] }
stream-download = { version = "=0.24.5", default-features = false, features = ["reqwest"] }
