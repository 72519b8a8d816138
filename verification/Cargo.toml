[package]
name = "gtkshutdown"
version = "0.1.0"
edition = "2021"
publish = false

[dependencies]
anyhow = "*"
clap = { version = "*", features = ["derive"] }
flexi_logger = "*"
gtk4 = "*"
hyprland = "*"
log = "*"
mango-ipc = "*"
nix = { version = "*", features = ["signal", "process"] }
serde = { version = "*", features = ["derive"] }
serde_json = "*"
swayipc = "*"
