[package]
name = "art_engine"
version = "0.1.0"
edition = "2021"
publish = false

[dependencies]
clap = { version = "4", features = ["derive"] }
glow = "*"
image = { version = "*", default-features = false, features = ["png"] }
noise = "*"
serde = { version = "1", features = ["derive"] }
serde_json = "1"
thiserror = "*"
