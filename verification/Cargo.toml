[package]
name = "hyprsnipe-checker"
version = "0.1.0"
edition = "2021"
publish = false

[dependencies]
anyhow = "1"
dotenvy = "0.15"
reqwest = { version = "0.12", features = ["blocking"] }
