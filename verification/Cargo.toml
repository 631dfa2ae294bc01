[package]
name = "db_setup"
version = "0.1.0"
edition = "2021"
publish = false

[dependencies]
anyhow = "=1.0.104"
tauri = { version = "=2.12.1", default-features = false }

[dev-dependencies]
tempfile = "=3.27.0"
