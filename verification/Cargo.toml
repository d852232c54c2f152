[package]
name = "gangplank"
version = "0.1.0"
edition = "2021"
publish = false

[dependencies]
regex = "1"
naga = { version = "*", default-features = false, features = ["wgsl-in", "glsl-in", "msl-out"] }
serde = { version = "1", features = ["derive"] }
serde_json = "1"
dirs = "*"
log = "0.4"
anyhow = "1"
cargo_metadata = "*"
