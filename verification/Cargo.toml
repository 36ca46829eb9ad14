[package]
name = "govsim"
version = "0.1.0"
edition = "2021"
publish = false

[dependencies]
anyhow = "1"
bcs = "0.1.6"
clap = { version = "4", features = ["derive"] }
move-core-types = "0.0.3"
once_cell = "1"
parking_lot = "0.12"
serde = { version = "1", features = ["derive"] }
url = "2"
walkdir = "2"
