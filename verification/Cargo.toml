[package]
name = "bucatini"
version = "0.3.0"
edition = "2021"
publish = false

[dependencies]
anyhow = "*"
clap = { version = "*", features = ["derive"] }
ctrlc = "*"
eframe = { version = "*", default-features = false, features = ["glow", "x11", "default_fonts"] }
tray-icon = "*"
