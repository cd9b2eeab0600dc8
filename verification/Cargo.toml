[package]
name = "photo_manifest"
version = "0.1.0"
edition = "2021"
publish = false

[dependencies]
chrono = "=0.4.45"
clap = { version = "=4.6.7", features = ["derive"] }
csv = "=1.4.0"
nom-exif = "=2.8.1"
