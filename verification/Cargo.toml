[package]
name = "gamescope-gui"
version = "0.1.0"
edition = "2021"
publish = false

[dependencies]
blake3 = "1"
shell-words = "1"
clap = "4"
serde = { version = "1", features = ["derive"] }
toml = "0.8"
thiserror = "2"
xdg = "3"
which = "7"
gtk4 = "0.9"
libadwaita = { version = "0.7", features = ["v1_4"] }
