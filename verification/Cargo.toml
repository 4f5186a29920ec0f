[package]
name = "voxel_server"
version = "0.1.0"
edition = "2021"
publish = false

[dependencies]
indexmap = "*"
rand = "*"
serde = { version = "*", features = ["derive"] }
serde_json = "*"
bincode = "1"
rusqlite = { version = "*", features = ["bundled"] }
futures-lite = "*"
