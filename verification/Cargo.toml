[package]
name = "terrain_destruction"
version = "0.1.0"
edition = "2021"
publish = false

[dependencies]
rand = "0.9"
noise = "0.9"
rodio = { version = "0.17", default-features = false, features = ["vorbis"] }
clap = { version = "4", features = ["derive"] }
rayon = "1"
