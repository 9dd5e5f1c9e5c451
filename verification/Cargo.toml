[package]
name = "odpic_doc"
version = "0.1.0"
edition = "2021"
publish = false

[dependencies]
anyhow = "*"
bindgen = "*"
serde = { version = "*", features = ["derive"] }
serde_yaml = "*"
