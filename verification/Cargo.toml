[package]
name = "soundcard_control"
version = "0.1.0"
edition = "2021"
publish = false

[dependencies]
regex = "1"
once_cell = "1"
lazy_static = "1"
serde = { version = "1", features = ["derive"] }
serde_json = "1"
nix = { version = "*", features = ["ioctl"] }
