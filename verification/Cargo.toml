[package]
name = "anatro-rs"
version = "0.1.0"
edition = "2021"
publish = false

[dependencies]
anyhow = "1"
chromaprint = "*"
clap = { version = "4", features = ["derive"] }
cross_correlate = "*"
dialoguer = "*"
dirs = "*"
env_logger = "*"
indicatif = "*"
log = "0.4"
rayon = "1"
rubato = "*"
serde = { version = "1", features = ["derive"] }
serde_json = { version = "1", features = ["preserve_order"] }
symphonia = { version = "0.5", features = ["all"] }
thiserror = "*"
