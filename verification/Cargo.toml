[package]
name = "config_editor"
version = "0.1.0"
edition = "2021"
publish = false

[dependencies]
toml_edit = "0.22"
toml = { version = "0.8", features = ["preserve_order"] }
serde_json = { version = "1", features = ["preserve_order"] }
similar = "2"
comfy-table = "7"
termcolor = "1"
clap = { version = "4", features = ["derive"] }
eyre = "0.6"
camino = "1"
tempfile = "3"
tokio = { version = "1", features = ["fs", "rt", "macros"] }
tracing = "0.1"
