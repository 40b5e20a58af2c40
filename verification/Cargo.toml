[package]
name = "bracket"
version = "0.1.0"
edition = "2021"
publish = false

[dependencies]
fastnoise-lite = "1"
rayon = "1"
smallvec = "1"
winit = { version = "0.30", default-features = false, features = ["x11", "rwh_06"] }
