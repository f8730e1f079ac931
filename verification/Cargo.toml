[package]
name = "fk_kuro_launcher"
version = "0.1.0"
edition = "2021"
publish = false

[dependencies]
tray-icon = "*"
winreg = "*"
