[package]
name = "atomica"
version = "0.1.0"
edition = "2021"
publish = false

[dependencies]
bytemuck = "1"
cgmath = "0.18"
color-eyre = "0.6"
env_logger = "0.11"
