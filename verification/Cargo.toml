[package]
name = "hydra_check"
version = "0.1.0"
edition = "2021"
publish = false

[dependencies]
anyhow = "*"
clap = { version = "*", features = ["derive"] }
colored = "*"
comfy-table = "*"
flexi_logger = "*"
indexmap = { version = "*", features = ["serde"] }
log = "*"
reqwest = { version = "*", default-features = false, features = ["blocking"] }
scraper = "=0.27.0"
serde = { version = "*", features = ["derive"] }
serde_json = "=1.0.151"
serde_with = "*"
