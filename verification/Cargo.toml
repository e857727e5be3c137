[package]
name = "nimbus-wayland"
version = "0.1.0"
edition = "2021"
publish = false

[dependencies]
serde_json = { version = "1", features = ["preserve_order"] }
calloop = "*"
calloop-wayland-source = "*"
glow = "*"
khronos-egl = { version = "6", features = ["dynamic"] }
smithay-client-toolkit = "*"
wayland-client = "*"
wayland-egl = "*"
wayland-protocols = { version = "*", features = ["client", "staging"] }
