[package]
name = "clip_registry"
version = "0.1.0"
edition = "2021"
publish = false

[dependencies]
sniffer-rs = "*"
dirs = "*"
powershell_script = "*"
