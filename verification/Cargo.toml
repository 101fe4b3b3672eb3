[package]
name = "minlock"
version = "0.1.0"
edition = "2021"
publish = false

[dependencies]
calloop = "=0.14.5"
calloop-wayland-source = "=0.4.1"
chrono = "=0.4.45"
clap = { version = "=4.6.7", features = ["derive"] }
hex_color = "=3.0.0"
memfd = "=0.6.6"
memmap = "=0.7.0"
pam = "=0.7.0"
users = "=0.11.0"
wayland-client = "=0.31.15"
wayland-protocols = { version = "=0.32.13", features = ["client", "staging"] }
wayland-protocols-wlr = { version = "=0.3.12", features = ["client"] }
xkbcommon = "=0.9.0"
