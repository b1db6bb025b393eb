[package]
name = "kwtypr"
version = "0.1.0"
edition = "2021"
publish = false

[dependencies]
xkeysym = "=0.2.1"
xkbcommon = "=0.9.0"
wayland-client = "=0.31.15"
wayland-protocols-plasma = { version = "=0.3.12", features = ["client"] }
rustix = { version = "=1.1.6", features = ["event"] }
thiserror = "=2.0.21"
clap = { version = "=4.6.7", features = ["derive"] }
clap_complete = "=4.6.11"
