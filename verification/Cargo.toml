[package]
name = "mizu"
version = "0.1.0"
edition = "2021"
publish = false

[dependencies]
sysinfo = "=0.39.6"
clap = { version = "=4.6.7", features = ["derive"] }
crossterm = "=0.29.0"
dirs = "=7.0.0"
rand = "=0.10.3"
ratatui = "=0.30.2"
viuer = { version = "=0.11.0", features = ["print-file"] }
