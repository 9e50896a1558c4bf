[package]
name = "layerscript"
version = "0.1.0"
edition = "2021"
publish = false

[dependencies]
smithay-client-toolkit = { version = "=0.19.2", default-features = false, features = ["calloop"] }
wayland-client = "=0.31.15"
mlua = { version = "=0.12.2", features = ["lua54", "vendored"] }
env_logger = "=0.11.11"
