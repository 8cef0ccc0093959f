[package]
name = "pixpox"
version = "0.1.0"
edition = "2021"
publish = false

[dependencies]
rand = "0.8"
log = "0.4"
env_logger = "0.10"
pollster = "0.3"
winit = "0.28"
winit_input_helper = "0.14"
serde = "1"
serde_derive = "1"
