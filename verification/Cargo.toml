[package]
name = "maolan_editor"
version = "0.1.0"
edition = "2021"
publish = false

[dependencies]
toml = "=1.1.8"
serde = { version = "=1.0.229", features = ["derive"] }
tokio = { version = "=1.54.1", features = ["sync", "time", "rt", "macros"] }
rfd = "=0.17.2"
rubato = "=5.0.1"
alsa = "=0.12.1"
maolan-engine = { version = "=0.4.20", features = ["audio", "plugins"] }
