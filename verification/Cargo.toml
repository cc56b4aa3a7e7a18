[package]
name = "hexendrum"
version = "0.1.0"
edition = "2021"
publish = false

[dependencies]
anyhow = "*"
chrono = "*"
dirs = "*"
lofty = "*"
rodio = "*"
serde = { version = "*", features = ["derive"] }
serde_json = "*"
serde_yaml = "*"
sha2 = "*"
symphonia = "*"
uuid = { version = "*", features = ["v4"] }
walkdir = "*"
