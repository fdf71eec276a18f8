[package]
name = "bacon"
version = "0.1.0"
edition = "2021"
publish = false

[dependencies]
anyhow = "=1.0.104"
rodio = "=0.21.1"
schemars = "=1.2.3"
serde = { version = "=1.0.229", features = ["derive"] }
termimad = "=0.35.5"

[dev-dependencies]
toml = "=1.1.8"
