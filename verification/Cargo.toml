[package]
name = "femur"
version = "0.1.0"
edition = "2021"
publish = false

[dependencies]
argon2 = "0.5"
base64 = "0.13"
clap = "4"
tiny_http = "0.12"
