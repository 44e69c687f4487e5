[package]
name = "voxel_core"
version = "0.1.0"
edition = "2021"
publish = false

[dependencies]
anyhow = "1"
bytemuck = { version = "1", features = ["derive"] }
cgmath = { version = "0.18", features = ["serde"] }
hashbrown = { version = "0.14", features = ["serde"] }
lazy_static = "1"
rayon = "1"
serde = { version = "1", features = ["derive"] }
serde_json = "1"
