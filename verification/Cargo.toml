[package]
name = "lapse"
version = "0.1.0"
edition = "2021"
publish = false

[dependencies]
anyhow = "1"
directories = "5"
global-hotkey = "*"
image = { version = "0.24", default-features = false, features = ["png"] }
notify-rust = { version = "4", default-features = false, features = ["d"] }
open = "5"
rodio = { version = "*", default-features = false }
serde = { version = "1", features = ["derive"] }
serde_json = "1"
toml = "0.8"
