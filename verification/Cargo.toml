[package]
name = "foxycompressor"
version = "0.1.0"
edition = "2021"
publish = false

[dependencies]
clap = { version = "=4.6.7", default-features = false, features = ["std", "derive", "help", "usage", "error-context"] }
eframe = { version = "0.31", default-features = false, features = ["glow", "x11", "default_fonts"] }
image = { version = "=0.25.10", default-features = false, features = ["jpeg", "png", "bmp", "tiff", "gif", "webp"] }
indicatif = { version = "=0.17.11", default-features = false }
rfd = { version = "0.15", default-features = false, features = ["xdg-portal", "tokio"] }
sevenz-rust = "=0.6.1"
walkdir = "=2.5.0"
webp = "=0.3.1"
