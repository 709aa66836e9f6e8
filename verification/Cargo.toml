[package]
name = "duster"
version = "0.1.0"
edition = "2021"
publish = false

[dependencies]
anyhow = "1"
blake3 = { version = "1", default-features = false, features = ["std", "pure"] }
chrono = { version = "0.4", features = ["serde"] }
clap = { version = "4", features = ["derive"] }
colored = "*"
ctrlc = "3"
dialoguer = "*"
dirs = "*"
indicatif = "*"
rayon = "1"
serde = { version = "1", features = ["derive"] }
serde_json = "1"
sysinfo = "*"
toml = "*"
walkdir = "2"
