[package]
name = "musicrenderer"
version = "0.1.0"
edition = "2021"
publish = false

[dependencies]
ghakuf = "=0.5.6"
toml = { version = "=0.5.11", features = ["preserve_order"] }
structopt = "=0.3.26"
