[package]
name = "copilot_session_tui"
version = "0.1.0"
edition = "2021"
publish = false

[dependencies]
anyhow = "1"
chrono = "0.4"
clap = { version = "4", features = ["derive"] }
crossterm = "*"
dirs = "*"
fs4 = "*"
ignore = "0.4"
libc = "0.2"
portable-pty = "*"
ratatui = "*"
serde = { version = "1", features = ["derive"] }
serde_json = "1"
serde_yaml = "0.9"
sha2 = "0.10"
tempfile = "3"
unicode-segmentation = "1"
unicode-width = "0.2"
ureq = "3"
uuid = { version = "1", features = ["v4"] }
vt100 = "0.16"
