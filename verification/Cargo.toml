[package]
name = "lvdt_pose"
version = "0.1.0"
edition = "2021"
publish = false

[dependencies]
nalgebra = "0.33"
clap = { version = "4", features = ["derive"] }
csv = "1"
serde = { version = "1", features = ["derive"] }
serde_yaml = "0.9"
plotters = { version = "0.3", default-features = false, features = ["svg_backend", "surface_series"] }
