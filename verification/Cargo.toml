[package]
name = "splat_render"
version = "0.1.0"
edition = "2021"
publish = false

[dependencies]
rayon = "1"
nalgebra = "*"
clap = { version = "4", features = ["derive"] }
serde = { version = "1", features = ["derive"] }
toml = "*"
dunce = "1"
chrono = { version = "*", default-features = false, features = ["std", "clock"] }
image = { version = "*", default-features = false, features = ["png"] }
parking_lot = "*"
tracing = "0.1"
tracing-subscriber = { version = "0.3", features = ["env-filter"] }
