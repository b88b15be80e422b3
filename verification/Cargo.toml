[package]
name = "vcard_gen"
version = "0.1.0"
edition = "2021"

[dependencies]
eframe = { version = "=0.37.0", default-features = false, features = ["glow", "default_fonts", "x11"] }
env_logger = { version = "=0.11.11", default-features = false }
rfd = { version = "=0.17.2", default-features = false, features = ["xdg-portal"] }
