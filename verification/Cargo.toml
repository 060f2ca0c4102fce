[package]
name = "celeste_autosplit"
version = "0.1.0"
edition = "2021"
publish = false

[dependencies]
clap = "2.33"
dialoguer = "0.8"
serde = { version = "1", features = ["derive"] }
toml = "0.5"
