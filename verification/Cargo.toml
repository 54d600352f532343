[package]
name = "basic_layout"
version = "0.1.0"
edition = "2021"
publish = false

[dependencies]
clap = { version = "4", features = ["derive"] }
wayland-client = "0.31"
