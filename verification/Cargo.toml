[package]
name = "waysaver"
version = "0.1.0"
edition = "2021"
publish = false

[dependencies]
anyhow = "1"
clap = { version = "4", features = ["derive"] }
gdk4-wayland = "*"
gtk4 = { version = "*", features = ["v4_12"] }
gtk4-layer-shell = "*"
webkit6 = "*"
