[package]
name = "ray_tracing_one_weekend"
version = "0.1.0"
edition = "2021"
publish = false

[dependencies]
rand = "0.8"
rayon = "1"
image = { version = "0.25", default-features = false, features = ["jpeg", "png"] }
