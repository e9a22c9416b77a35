[package]
name = "bevy_video"
version = "0.1.0"
edition = "2021"
publish = false

[dependencies]
bevy = { version = "=0.16.1", default-features = false, features = ["std", "bevy_asset", "bevy_image", "bevy_log"] }
openh264 = "=0.4.4"
wgpu-types = "=24.0.0"
