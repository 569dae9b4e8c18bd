[package]
name = "sigye"
version = "0.1.0"
edition = "2021"
publish = false

[dependencies]
chrono = "0.4"
color-eyre = "0.6"
crossterm = "0.28"
directories = "5"
ratatui = "0.29"
serde = { version = "1", features = ["derive"] }
toml = "0.8"
