[package]
name = "orca"
version = "0.1.0"
edition = "2021"

[dependencies]
bevy_math = "0.12"
