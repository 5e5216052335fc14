[package]
name = "rbackup"
version = "0.1.0"
edition = "2021"
publish = false

[dependencies]
chrono = "*"
clap = { version = "*", features = ["derive"] }
crossterm = "*"
globset = "*"
rayon = "*"
serde = { version = "*", features = ["derive"] }
serde_json = "*"
serde_yaml = "*"
sys-locale = "*"
unicode-width = "*"
walkdir = "*"
windows = { version = "*", features = ["Win32_Foundation", "Win32_Security", "Win32_System_Threading"] }
