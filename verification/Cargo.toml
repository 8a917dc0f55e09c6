[package]
name = "sherion"
version = "0.1.0"
edition = "2021"
publish = false

[dependencies]
winit = "=0.30.13"
alacritty_terminal = "=0.26.0"
vte = "=0.15.0"
polling = "=3.11.0"
arboard = "=3.7.0"
serde = { version = "=1.0.229", features = ["derive"] }
toml = "=1.1.8"
anyhow = "=1.0.104"
tracing = "=0.1.44"
tracing-subscriber = { version = "=0.3.23", features = ["env-filter"] }
regex = "=1.13.1"
simdutf8 = "=0.1.5"
libc = "=0.2.191"
parking_lot = "=0.12.5"
