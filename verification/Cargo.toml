[package]
name = "model_assistant"
version = "0.1.0"
edition = "2021"
publish = false

[dependencies]
anyhow = "1"
gtk4 = "0.11.3"
libadwaita = "0.9.1"
nix = { version = "0.30", features = ["fs", "mount", "process", "sched", "signal", "user"] }
serde = { version = "1", features = ["derive"] }
serde_json = "1"
toml = "0.9"
tracing-subscriber = "0.3"
unicode-width = "0.2"
vte = "0.15"
