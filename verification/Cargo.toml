[package]
name = "anti_power"
version = "0.1.0"
edition = "2021"
publish = false

[dependencies]
serde = { version = "1", features = ["derive"] }
serde_json = "1"
dirs = "*"
tauri = { version = "*", default-features = false }
winreg = "*"
