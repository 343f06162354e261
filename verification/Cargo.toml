[package]
name = "nix_software_center"
version = "0.2.0"
edition = "2021"
publish = false

[dependencies]
rand = "=0.10.3"
spdx = "=0.13.6"
html2pango = "=0.6.0"
sha256 = "=1.6.0"
image = { version = "=0.25.10", default-features = false, features = ["png", "jpeg", "webp"] }
chrono = { version = "=0.4.45", features = ["serde"] }
clap = { version = "=4.6.7", features = ["derive"] }
serde = { version = "=1.0.229", features = ["derive"] }
serde_yaml = "=0.9.34"
serde_json = "=1.0.154"
flate2 = "=1.1.10"
toml = "=1.1.8"
xdg = "=3.0.0"
anyhow = "=1.0.104"
log = "=0.4.35"
pretty_env_logger = "=0.5.0"
