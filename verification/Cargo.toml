[package]
name = "wayland_client"
version = "0.7.0"
edition = "2021"
publish = false

[dependencies]
libc = "0.2"
wayland-sys = { version = "*", features = ["client", "dlopen"] }
