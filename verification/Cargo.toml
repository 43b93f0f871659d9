[package]
name = "rouge_software"
version = "0.1.0"
edition = "2021"
publish = false

[dependencies]
colored = "*"
futures = "0.3"
gtk4 = "*"
libadwaita = "*"
libflatpak = "*"
log = "0.4"
