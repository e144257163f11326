[package]
name = "niri-zoom"
version = "0.1.0"
edition = "2021"
publish = false

[dependencies]
calloop = "0.14"
calloop-wayland-source = "0.4"
memmap2 = "0.9"
rustix = { version = "1", features = ["fs"] }
wayland-client = "0.31"
wayland-protocols = { version = "0.32", features = ["client", "staging", "unstable"] }
wayland-protocols-wlr = { version = "0.3", features = ["client"] }
