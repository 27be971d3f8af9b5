[package]
name = "rasm"
version = "0.1.0"
edition = "2021"
publish = false

[dependencies]
anyhow = "1"
atty = "0.2"
clap = { version = "4", features = ["derive"] }
clap_complete = "4"
env_logger = "*"
glob = "0.3"
indicatif = "0.17"
log = "0.4"
notify-debouncer-full = "*"
owo-colors = "*"
rayon = "1"
serde = { version = "1", features = ["derive"] }
toml = "*"
