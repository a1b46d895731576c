[package]
name = "cargo_wash"
version = "0.1.0"
edition = "2021"
publish = false

[dependencies]
anyhow = "*"
clap = { version = "*", features = ["derive"] }
comfy-table = "*"
indicatif = "*"
log = "*"
parking_lot = "*"
rayon = "*"
simplelog = "*"
