[package]
name = "rustling"
version = "0.1.0"
edition = "2021"

[dependencies]
rand = "0.9"
macroquad = "0.4"
macroquad-tiled = "0.2"
include_dir = { version = "0.7", features = ["glob"] }
