[package]
name = "plugged"
version = "0.1.0"
edition = "2021"
publish = false

[dependencies]
anyhow = "=1.0.104"
clap = { version = "=4.6.7", features = ["derive"] }
confy = "=2.0.0"
ctrlc = "=3.5.2"
libnotify = "=1.0.3"
rodio = "=0.22.2"
serde = { version = "=1.0.229", features = ["derive"] }
tracing = "=0.1.44"
tracing-subscriber = { version = "=0.3.23", features = ["env-filter"] }
udev = { version = "=0.9.3", features = ["mio10"] }
