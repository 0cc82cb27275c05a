[package]
name = "pulsehub"
version = "0.1.3"
edition = "2021"
publish = false

[dependencies]
serde = { version = "1", features = ["derive"] }
serde_json = "1"
toml = "0.9"
tempfile = "3"
hidapi = "2.6"
interprocess = { version = "2.4", default-features = false }
widestring = "1"
ctrlc = "3"
single-instance = "0.3"
