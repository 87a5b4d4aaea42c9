[package]
name = "mpvpaper"
version = "0.1.0"
edition = "2021"
publish = false

[dependencies]
anyhow = "=1.0.104"
calloop = "=0.14.5"
calloop-wayland-source = "=0.4.1"
clap = { version = "=4.6.7", features = ["derive"] }
khronos-egl = { version = "=6.0.0", features = ["static"] }
libmpv2 = { version = "=6.0.1", features = ["render"] }
smithay-client-toolkit = { version = "=0.20.0", default-features = false, features = ["calloop"] }
wayland-client = { version = "=0.31.15", features = ["system", "dlopen"] }
wayland-egl = "=0.32.11"
